//! The one line at the top of the window: is it working, and if not, what now.
//!
//! The whole verdict is a pure function of facts the window already has.
//!
//! * "Работает" needs proof: only a model answer in the client's own log, with
//!   no refusal after it, turns the card green.
//! * One action at most, and a real one: a card that says what is wrong carries
//!   the button that fixes it, or none.
//! * What was done about a refusal is said by the side that did it, never
//!   inferred from a switch being on.
use vstd::prelude::*;

use crate::text::{
    a_missing_character_is_not_mentioned, a_text_mentions_its_parts, decimal, mentions, push_decimal,
    stands_at, uppercase_char, what_a_part_mentions_is_mentioned,
};
use crate::time::Span;

verus! {

/// How the card is coloured, and how loud it is.
#[derive(Debug, Clone, Copy, PartialEq, Eq, Structural)]
pub enum Tone {
    /// Proven working.
    Proven,
    /// Set up, nothing proven yet: waiting for the user's next message.
    Wait,
    /// A refusal was seen and is being dealt with.
    Fixing,
    /// Something only the user can do.
    Action,
    /// Switched off, or nothing to work on.
    Off,
}

/// The one button a card may carry.
#[derive(Debug, Clone, Copy, PartialEq, Eq, Structural)]
pub enum Action {
    /// Turn everything on.
    EnableAll,
    /// Restart this program elevated.
    Elevate,
    /// Reinstall and restart the service.
    Repair,
}

impl Action {
    pub open spec fn spec_label(self) -> Seq<char> {
        match self {
            Action::EnableAll => "Включить всё"@,
            Action::Elevate => "Перезапустить от имени администратора"@,
            Action::Repair => "Починить"@,
        }
    }

    pub fn label(self) -> (label: &'static str)
        ensures
            label@ == self.spec_label(),
    {
        match self {
            Action::EnableAll => "Включить всё",
            Action::Elevate => "Перезапустить от имени администратора",
            Action::Repair => "Починить",
        }
    }
}

#[derive(Debug, Clone, PartialEq, Eq)]
pub struct Headline {
    pub tone: Tone,
    pub title: String,
    pub detail: String,
    pub action: Option<Action>,
}

/// What a card says, in mathematical terms.
pub struct Card {
    pub tone: Tone,
    pub title: Seq<char>,
    pub detail: Seq<char>,
    pub action: Option<Action>,
}

impl View for Headline {
    type V = Card;

    open spec fn view(&self) -> Card {
        Card {
            tone: self.tone,
            title: self.title@,
            detail: self.detail@,
            action: self.action,
        }
    }
}

/// What the relay said it did about the last refusal.
#[derive(Debug, Clone, PartialEq, Eq)]
pub struct Answered {
    pub acted: String,
    /// No tunnel of ours carried it: the client went to Google by itself.
    pub bypassed: bool,
}

impl Default for Answered {
    fn default() -> (a: Answered)
        ensures
            a.acted@ == Seq::<char>::empty(),
            !a.bypassed,
    {
        Answered { acted: String::new(), bypassed: false }
    }
}

/// Everything the verdict is made of.
#[derive(Debug, Clone)]
pub struct Facts {
    /// Windows and elevated (or not Windows, where nothing needs it).
    pub admin: bool,
    /// At least one Antigravity install was found.
    pub installs_found: bool,
    /// The account patch is on everywhere it can be.
    pub patch_on: bool,
    /// The 400 bypass is on: its DNS half, which everything else rides on.
    pub bypass_on: bool,
    pub relay_running: bool,
    pub relay_outdated: bool,
    /// Our DNS rules are in. Without them nothing on the machine asks the
    /// service anything, however healthy it is.
    pub rules: bool,
    /// The relay's record is fresh, i.e. it is alive and saying what it does.
    pub relay_reporting: bool,
    /// The newest refusal in a client log: how long ago, and how many lines in
    /// the last ten minutes.
    pub refusal: Option<(Span, usize)>,
    /// The newest model answer in a client log, how long ago.
    pub answer: Option<Span>,
    /// The relay's answer to that refusal, when it wrote one after it.
    pub answered: Option<Answered>,
    /// The route the relay credited with the last answer, or the one it would
    /// use now.
    pub route: Option<String>,
}

impl Default for Facts {
    fn default() -> (f: Facts)
        ensures
            !f.admin,
            !f.installs_found,
            !f.patch_on,
            !f.bypass_on,
            !f.relay_running,
            !f.relay_outdated,
            !f.rules,
            !f.relay_reporting,
            f.refusal is None,
            f.answer is None,
            f.answered is None,
            f.route is None,
    {
        Facts {
            admin: false,
            installs_found: false,
            patch_on: false,
            bypass_on: false,
            relay_running: false,
            relay_outdated: false,
            rules: false,
            relay_reporting: false,
            refusal: None,
            answer: None,
            answered: None,
            route: None,
        }
    }
}

/// About three refused turns (each writes four lines) with no answer in
/// between: past that, "send it again" has been tried and did not help.
pub const STUCK_LINES: usize = 12;

/// For how many seconds a refusal is "happening now" and the card says «Чиним».
/// After it, with no answer since, the card asks for a check instead.
pub const FIXING_FOR: u64 = 10 * 60;

/// Which of the cards the facts call for.
#[derive(Debug, Clone, Copy, PartialEq, Eq, Structural)]
pub enum Situation {
    /// No install, and nothing switched on.
    NothingInstalled,
    /// There is something to install or repair, and no right to do it.
    NeedsAdmin,
    /// The patch or the bypass is off.
    NotAllOn,
    /// The bypass is on and its service does not do its part.
    ServiceBroken,
    /// Refused after the last answer, too long ago to be happening now.
    NeedsCheck,
    /// Refused over and over with no answer in between.
    Stuck,
    /// Refused a moment ago.
    Fixing,
    /// Answered, and not refused since.
    Working,
    /// Nothing heard yet, the relay included.
    Starting,
    /// Set up, nothing proven.
    Ready,
}

impl Facts {
    /// The bypass is on, and the service is down, old, or asked nothing.
    pub open spec fn service_broken(self) -> bool {
        self.bypass_on && !(self.relay_running && !self.relay_outdated && self.rules)
    }

    /// How long ago the newest refusal was, where there is one.
    pub open spec fn refused_ago(self) -> Span {
        self.refusal.unwrap().0
    }

    /// How many refusal lines the last ten minutes hold, where there is one.
    pub open spec fn refused_lines(self) -> usize {
        self.refusal.unwrap().1
    }

    /// There is a refusal, and no model answer as recent as it.
    pub open spec fn refused_last(self) -> bool {
        self.refusal is Some && (self.answer matches Some(a) ==> self.refused_ago()@ < a@)
    }

    /// The patch and the bypass are on and the service does its part.
    pub open spec fn all_in_place(self) -> bool {
        self.patch_on && self.bypass_on && !self.service_broken()
    }

    /// What the relay wrote about the last refusal; nothing without a note.
    pub open spec fn acted(self) -> Seq<char> {
        match self.answered {
            Some(a) => a.acted@,
            None => Seq::empty(),
        }
    }

    /// The facts decide in this order: something to work on, the right to work
    /// on it, the switches, the service, and only then what the logs say.
    pub open spec fn situation(self) -> Situation {
        if !self.installs_found && !self.patch_on && !self.bypass_on {
            Situation::NothingInstalled
        } else if !self.admin && (!self.bypass_on || self.service_broken()) {
            Situation::NeedsAdmin
        } else if !(self.patch_on && self.bypass_on) {
            Situation::NotAllOn
        } else if self.service_broken() {
            Situation::ServiceBroken
        } else if self.refused_last() {
            if self.refused_ago()@ > FIXING_FOR * crate::time::NANOS_PER_SEC {
                Situation::NeedsCheck
            } else if self.refused_lines() >= STUCK_LINES {
                Situation::Stuck
            } else {
                Situation::Fixing
            }
        } else if self.answer is Some {
            Situation::Working
        } else if !self.relay_reporting {
            Situation::Starting
        } else {
            Situation::Ready
        }
    }
}

// ---------------------------------------------------------------------------
// How an age reads
// ---------------------------------------------------------------------------

/// The form a noun takes behind a count: the second ten takes the last form, and
/// elsewhere the last digit decides.
pub open spec fn plural_form<T>(n: nat, one: T, few: T, many: T) -> T {
    if 10 <= n % 100 <= 19 {
        many
    } else if n % 10 == 1 {
        one
    } else if 2 <= n % 10 <= 4 {
        few
    } else {
        many
    }
}

/// Russian counts in three forms.
pub fn plural(n: u64, one: &'static str, few: &'static str, many: &'static str) -> (form:
    &'static str)
    ensures
        form@ == plural_form(n as nat, one@, few@, many@),
{
    if n % 100 / 10 == 1 {
        return many;
    }
    match n % 10 {
        1 => one,
        2..=4 => few,
        _ => many,
    }
}

/// «3 минуты назад».
pub open spec fn counted_ago(n: nat, one: Seq<char>, few: Seq<char>, many: Seq<char>) -> Seq<
    char,
> {
    crate::text::decimal(n) + " "@ + plural_form(n, one, few, many) + " назад"@
}

/// How an age of so many seconds is said.
pub open spec fn age(secs: nat) -> Seq<char> {
    if secs < 15 {
        "только что"@
    } else if secs < 60 {
        counted_ago(secs, "секунду"@, "секунды"@, "секунд"@)
    } else if secs < 3600 {
        counted_ago(secs / 60, "минуту"@, "минуты"@, "минут"@)
    } else {
        counted_ago(secs / 3600, "час"@, "часа"@, "часов"@)
    }
}

fn counted(n: u64, form: &'static str) -> (s: String)
    ensures
        s@ == crate::text::decimal(n as nat) + " "@ + form@ + " назад"@,
{
    let mut s = String::new();
    push_decimal(&mut s, n);
    s.append(" ");
    s.append(form);
    s.append(" назад");
    assert(s@ == crate::text::decimal(n as nat) + " "@ + form@ + " назад"@);
    s
}

/// «только что», «22 секунды назад», «3 минуты назад», «2 часа назад».
pub fn ago_text(d: Span) -> (s: String)
    ensures
        s@ == age(d.secs()),
{
    let secs: u64 = d.as_secs();
    if secs < 15 {
        return "только что".to_owned();
    }
    if secs < 60 {
        return counted(secs, plural(secs, "секунду", "секунды", "секунд"));
    }
    let mins: u64 = secs / 60;
    if mins < 60 {
        return counted(mins, plural(mins, "минуту", "минуты", "минут"));
    }
    let hours: u64 = mins / 60;
    counted(hours, plural(hours, "час", "часа", "часов"))
}

// ---------------------------------------------------------------------------
// Capital letters
// ---------------------------------------------------------------------------

/// A text with its first character replaced; an empty text stays empty.
pub open spec fn with_head(head: Seq<char>, s: Seq<char>) -> Seq<char> {
    if s.len() == 0 {
        Seq::empty()
    } else {
        head + s.skip(1)
    }
}

/// A text with its first character in upper case.
pub open spec fn capitalised(s: Seq<char>) -> Seq<char> {
    with_head(crate::text::upper_of_char(s[0]), s)
}

/// Puts `head` in the place of the first character.
pub fn replace_head(head: &str, s: &str) -> (r: String)
    ensures
        r@ == with_head(head@, s@),
{
    let n: usize = s.unicode_len();
    if n == 0 {
        return String::new();
    }
    let mut r = head.to_owned();
    r.append(s.substring_char(1, n));
    assert(s@.subrange(1, n as int) == s@.skip(1));
    r
}

/// A text with its first character in upper case.
pub fn capitalise(s: &str) -> (r: String)
    ensures
        r@ == capitalised(s@),
        s@.len() > 0 && (s@[0] as u32) < 128 ==> r@ == s@.update(
            0,
            crate::text::ascii_upper(s@[0]),
        ),
{
    if s.is_empty() {
        return String::new();
    }
    let head = uppercase_char(s.get_char(0));
    let r = replace_head(head.as_str(), s);
    assert((s@[0] as u32) < 128 ==> r@ == s@.update(0, crate::text::ascii_upper(s@[0])));
    r
}

// ---------------------------------------------------------------------------
// The verdict
// ---------------------------------------------------------------------------

/// The card of a situation. `acted` is what the relay says it did, as a
/// sentence.
pub open spec fn card(f: Facts, acted: Seq<char>) -> Card {
    match f.situation() {
        Situation::NothingInstalled => Card {
            tone: Tone::Off,
            title: "Antigravity не найден"@,
            detail:
                "Установите Antigravity или укажите папку с ним ниже — карандаш рядом с нужной строкой."@,
            action: None,
        },
        Situation::NeedsAdmin => Card {
            tone: Tone::Action,
            title: "Нужны права администратора"@,
            detail:
                "Без них обход ошибки 400 не установить и не починить. Разблокировка входа работает и так."@,
            action: Some(Action::Elevate),
        },
        Situation::NotAllOn => Card {
            tone: Tone::Off,
            title: "Включено не всё"@,
            detail: off_detail(f.patch_on, f.bypass_on),
            action: Some(Action::EnableAll),
        },
        Situation::ServiceBroken => Card {
            tone: Tone::Action,
            title: broken_title(f.relay_running, f.relay_outdated),
            detail: "Без неё ошибка 400 не обходится. Кнопка переустановит и запустит её."@,
            action: Some(Action::Repair),
        },
        Situation::NeedsCheck => Card {
            tone: Tone::Wait,
            title: "Нужна проверка"@,
            detail: "Последний раз была ошибка 400 — "@ + age(f.refused_ago().secs())
                + ", и после неё модель не отвечала. Напишите что-нибудь в Antigravity: если ошибка повторится, обход её поймает и сам сменит путь."@,
            action: None,
        },
        Situation::Stuck => Card {
            tone: Tone::Action,
            title: "Ошибка 400 повторяется"@,
            detail: "Последняя — "@ + age(f.refused_ago().secs())
                + ". Обход перебирает пути сам, но ни один пока не сработал. Если у вас включён VPN или прокси, попробуйте выключить его или сменить сервер, и отправьте сообщение ещё раз. Не помогло — нажмите «Скопировать отчёт» и пришлите его в группу."@,
            action: None,
        },
        Situation::Fixing => Card {
            tone: Tone::Fixing,
            title: "Чиним"@,
            detail: "Ошибка 400 — "@ + age(f.refused_ago().secs()) + fixing_tail(f.answered, acted),
            action: None,
        },
        Situation::Working => Card {
            tone: Tone::Proven,
            title: "Работает"@,
            detail: "Модель ответила "@ + age(f.answer->0.secs()) + path_tail(f.route) + "."@,
            action: None,
        },
        Situation::Starting => Card {
            tone: Tone::Wait,
            title: "Служба запускается"@,
            detail: "Это занимает до минуты. Потом напишите что-нибудь в Antigravity."@,
            action: None,
        },
        Situation::Ready => Card {
            tone: Tone::Wait,
            title: "Всё включено"@,
            detail:
                "Напишите что-нибудь в чат Antigravity — здесь появится подтверждение, что модель ответила."@,
            action: None,
        },
    }
}

/// What is off, and that turning the patch on closes Antigravity for a moment.
pub open spec fn off_detail(patch_on: bool, bypass_on: bool) -> Seq<char> {
    let what = if !patch_on && !bypass_on {
        "Разблокировка входа и обход ошибки 400 выключены."@
    } else if !patch_on {
        "Разблокировка входа выключена."@
    } else {
        "Обход ошибки 400 выключен."@
    };
    if patch_on {
        what
    } else {
        what + " Antigravity закроется на пару секунд."@
    }
}

pub open spec fn broken_title(running: bool, outdated: bool) -> Seq<char> {
    if !running {
        "Служба обхода не работает"@
    } else if outdated {
        "Служба обхода устарела"@
    } else {
        "Служба обхода работает не полностью"@
    }
}

/// What is being done about a refusal, as far as the relay has said it.
pub open spec fn fixing_tail(answered: Option<Answered>, acted: Seq<char>) -> Seq<char> {
    match answered {
        Some(a) if a.bypassed =>
            ". Antigravity обратился к Google мимо обхода; через минуту его запросы пойдут через обход. Отправьте сообщение ещё раз — не помогло, перезапустите Antigravity."@,
        Some(a) if a.acted@.len() > 0 => ". "@ + acted + ". Отправьте сообщение ещё раз."@,
        _ => ". Обход её видит и перестраивается. Отправьте сообщение ещё раз."@,
    }
}

/// The path of the last answer, when it has a name.
pub open spec fn path_tail(route: Option<String>) -> Seq<char> {
    match route {
        Some(r) if r@.len() > 0 => " · путь: "@ + r@,
        _ => Seq::empty(),
    }
}

/// Which card the facts call for.
pub fn situation(f: &Facts) -> (s: Situation)
    ensures
        s == f.situation(),
{
    if !f.installs_found && !f.patch_on && !f.bypass_on {
        return Situation::NothingInstalled;
    }
    let service_broken = f.bypass_on && (!f.relay_running || f.relay_outdated || !f.rules);
    if !f.admin && (!f.bypass_on || service_broken) {
        return Situation::NeedsAdmin;
    }
    if !f.patch_on || !f.bypass_on {
        return Situation::NotAllOn;
    }
    if service_broken {
        return Situation::ServiceBroken;
    }
    if let Some((ago, lines)) = f.refusal {
        let refused_last = match f.answer {
            Some(a) => ago.as_nanos() < a.as_nanos(),
            None => true,
        };
        if refused_last {
            if ago.as_nanos() > Span::from_secs(FIXING_FOR).as_nanos() {
                return Situation::NeedsCheck;
            }
            if lines >= STUCK_LINES {
                return Situation::Stuck;
            }
            return Situation::Fixing;
        }
    }
    if f.answer.is_some() {
        return Situation::Working;
    }
    if !f.relay_reporting {
        return Situation::Starting;
    }
    Situation::Ready
}

fn off_text(patch_on: bool, bypass_on: bool) -> (s: String)
    ensures
        s@ == off_detail(patch_on, bypass_on),
{
    let mut s = (match (patch_on, bypass_on) {
        (false, false) => "Разблокировка входа и обход ошибки 400 выключены.",
        (false, true) => "Разблокировка входа выключена.",
        _ => "Обход ошибки 400 выключен.",
    }).to_owned();
    if !patch_on {
        s.append(" Antigravity закроется на пару секунд.");
    }
    s
}

fn fixing_text(ago: Span, answered: &Option<Answered>, acted: &str) -> (s: String)
    ensures
        s@ == "Ошибка 400 — "@ + age(ago.secs()) + fixing_tail(*answered, acted@),
{
    let mut s = "Ошибка 400 — ".to_owned();
    s.append(ago_text(ago).as_str());
    let ghost start = s@;
    match answered {
        Some(a) => {
            if a.bypassed {
                s.append(
                    ". Antigravity обратился к Google мимо обхода; через минуту его запросы пойдут через обход. Отправьте сообщение ещё раз — не помогло, перезапустите Antigravity.",
                );
            } else if !a.acted.as_str().is_empty() {
                s.append(". ");
                s.append(acted);
                s.append(". Отправьте сообщение ещё раз.");
                assert(s@ == start + (". "@ + acted@ + ". Отправьте сообщение ещё раз."@));
            } else {
                s.append(". Обход её видит и перестраивается. Отправьте сообщение ещё раз.");
            }
        },
        None => {
            s.append(". Обход её видит и перестраивается. Отправьте сообщение ещё раз.");
        },
    }
    s
}

fn working_text(ago: Span, route: &Option<String>) -> (s: String)
    ensures
        s@ == "Модель ответила "@ + age(ago.secs()) + path_tail(*route) + "."@,
{
    let mut s = "Модель ответила ".to_owned();
    s.append(ago_text(ago).as_str());
    let ghost start = s@;
    if let Some(r) = route {
        if !r.as_str().is_empty() {
            s.append(" · путь: ");
            s.append(r.as_str());
        }
    }
    assert(s@ == start + path_tail(*route));
    s.append(".");
    s
}

/// The card, with what the relay did already put as a sentence.
pub fn headline_with(f: &Facts, acted: &str) -> (h: Headline)
    ensures
        h@ == card(*f, acted@),
{
    match situation(f) {
        Situation::NothingInstalled => Headline {
            tone: Tone::Off,
            title: "Antigravity не найден".to_owned(),
            detail:
                "Установите Antigravity или укажите папку с ним ниже — карандаш рядом с нужной строкой.".to_owned(),
            action: None,
        },
        Situation::NeedsAdmin => Headline {
            tone: Tone::Action,
            title: "Нужны права администратора".to_owned(),
            detail:
                "Без них обход ошибки 400 не установить и не починить. Разблокировка входа работает и так.".to_owned(),
            action: Some(Action::Elevate),
        },
        Situation::NotAllOn => Headline {
            tone: Tone::Off,
            title: "Включено не всё".to_owned(),
            detail: off_text(f.patch_on, f.bypass_on),
            action: Some(Action::EnableAll),
        },
        Situation::ServiceBroken => Headline {
            tone: Tone::Action,
            title: (if !f.relay_running {
                "Служба обхода не работает"
            } else if f.relay_outdated {
                "Служба обхода устарела"
            } else {
                "Служба обхода работает не полностью"
            }).to_owned(),
            detail: "Без неё ошибка 400 не обходится. Кнопка переустановит и запустит её.".to_owned(),
            action: Some(Action::Repair),
        },
        Situation::NeedsCheck => {
            let mut detail = "Последний раз была ошибка 400 — ".to_owned();
            detail.append(ago_text(f.refusal.unwrap().0).as_str());
            detail.append(
                ", и после неё модель не отвечала. Напишите что-нибудь в Antigravity: если ошибка повторится, обход её поймает и сам сменит путь.",
            );
            Headline {
                tone: Tone::Wait,
                title: "Нужна проверка".to_owned(),
                detail,
                action: None,
            }
        },
        Situation::Stuck => {
            let mut detail = "Последняя — ".to_owned();
            detail.append(ago_text(f.refusal.unwrap().0).as_str());
            detail.append(
                ". Обход перебирает пути сам, но ни один пока не сработал. Если у вас включён VPN или прокси, попробуйте выключить его или сменить сервер, и отправьте сообщение ещё раз. Не помогло — нажмите «Скопировать отчёт» и пришлите его в группу.",
            );
            Headline {
                tone: Tone::Action,
                title: "Ошибка 400 повторяется".to_owned(),
                detail,
                action: None,
            }
        },
        Situation::Fixing => Headline {
            tone: Tone::Fixing,
            title: "Чиним".to_owned(),
            detail: fixing_text(f.refusal.unwrap().0, &f.answered, acted),
            action: None,
        },
        Situation::Working => Headline {
            tone: Tone::Proven,
            title: "Работает".to_owned(),
            detail: working_text(f.answer.unwrap(), &f.route),
            action: None,
        },
        Situation::Starting => Headline {
            tone: Tone::Wait,
            title: "Служба запускается".to_owned(),
            detail: "Это занимает до минуты. Потом напишите что-нибудь в Antigravity.".to_owned(),
            action: None,
        },
        Situation::Ready => Headline {
            tone: Tone::Wait,
            title: "Всё включено".to_owned(),
            detail:
                "Напишите что-нибудь в чат Antigravity — здесь появится подтверждение, что модель ответила.".to_owned(),
            action: None,
        },
    }
}

/// The verdict on everything the window knows.
pub fn headline(f: &Facts) -> (h: Headline)
    ensures
        h@ == card(*f, capitalised(f.acted())),
{
    match &f.answered {
        Some(a) => {
            let sentence = capitalise(a.acted.as_str());
            headline_with(f, sentence.as_str())
        },
        None => {
            proof {
                assert(capitalised(f.acted()) == Seq::<char>::empty());
            }
            headline_with(f, "")
        },
    }
}

// ---------------------------------------------------------------------------
// What holds of every card
// ---------------------------------------------------------------------------

/// The card is green exactly when everything is in place, the model has
/// answered, and no refusal is newer than that answer. Silence after a refusal
/// is never enough.
pub proof fn working_needs_proof(f: Facts, acted: Seq<char>)
    ensures
        card(f, acted).tone == Tone::Proven <==> f.all_in_place() && f.answer is Some && (
        f.refusal is Some ==> f.answer->0@ <= f.refused_ago()@),
        f.refusal is Some && f.answer is None ==> card(f, acted).tone != Tone::Proven,
{
}

/// With everything in place, a refusal newer than the last answer is what the
/// card is about: being fixed while it is fresh, handed to the user once it
/// keeps coming back, and a request for a check once it is old.
pub proof fn newest_refusal_is_the_live_problem(f: Facts, acted: Seq<char>)
    requires
        f.all_in_place(),
        f.refused_last(),
    ensures
        card(f, acted).action is None,
        f.refused_ago()@ > FIXING_FOR * crate::time::NANOS_PER_SEC ==> card(f, acted).tone
            == Tone::Wait && card(f, acted).title == "Нужна проверка"@,
        f.refused_ago()@ <= FIXING_FOR * crate::time::NANOS_PER_SEC && f.refused_lines()
            >= STUCK_LINES ==> card(f, acted).tone == Tone::Action,
        f.refused_ago()@ <= FIXING_FOR * crate::time::NANOS_PER_SEC && f.refused_lines()
            < STUCK_LINES ==> card(f, acted).tone == Tone::Fixing,
{
}

/// A button is offered only where pressing it has something to do: elevation
/// only without the rights and with something to install or repair, turning on
/// only when something is off, repair only for a broken service and only with
/// the rights it takes. And whenever something is amiss there is one.
pub proof fn every_button_has_work_to_do(f: Facts, acted: Seq<char>)
    ensures
        card(f, acted).action == Some(Action::Elevate) ==> !f.admin && (!f.bypass_on
            || f.service_broken()),
        card(f, acted).action == Some(Action::EnableAll) ==> !(f.patch_on && f.bypass_on) && (
        f.admin || (f.bypass_on && !f.service_broken())),
        card(f, acted).action == Some(Action::Repair) ==> f.admin && f.patch_on && f.bypass_on
            && f.service_broken(),
        card(f, acted).action is None <==> f.all_in_place() || (!f.installs_found && !f.patch_on
            && !f.bypass_on),
{
}

/// What the card says was done comes from the relay's note alone: without one,
/// or when the client went around the relay, nothing said elsewhere reaches it.
pub proof fn only_the_relay_says_what_was_done(f: Facts, one: Seq<char>, other: Seq<char>)
    requires
        f.answered matches Some(a) ==> a.bypassed || a.acted@.len() == 0,
    ensures
        card(f, one) == card(f, other),
{
}

/// The form a noun takes depends on the last two digits alone.
pub proof fn forms_repeat_every_hundred<T>(n: nat, one: T, few: T, many: T)
    ensures
        plural_form(n + 100, one, few, many) == plural_form(n, one, few, many),
{
}

/// A card about switches that are not all on names exactly those that are off, and
/// says that Antigravity closes exactly when turning them on will close it.
pub proof fn the_card_names_what_is_off(f: Facts, acted: Seq<char>)
    requires
        card(f, acted).action == Some(Action::EnableAll),
    ensures
        ({
            let detail = card(f, acted).detail;
            &&& mentions(detail, "Разблокировка входа"@) <==> !f.patch_on
            &&& mentions(detail, "бход ошибки 400"@) <==> !f.bypass_on
            &&& mentions(detail, "закроется"@) <==> !f.patch_on
        }),
{
    lemma_off_detail(f.patch_on, f.bypass_on);
}

proof fn lemma_off_detail(patch_on: bool, bypass_on: bool)
    requires
        !(patch_on && bypass_on),
    ensures
        mentions(off_detail(patch_on, bypass_on), "Разблокировка входа"@) <==> !patch_on,
        mentions(off_detail(patch_on, bypass_on), "бход ошибки 400"@) <==> !bypass_on,
        mentions(off_detail(patch_on, bypass_on), "закроется"@) <==> !patch_on,
{
    reveal_strlit("Разблокировка входа");
    reveal_strlit("бход ошибки 400");
    reveal_strlit("закроется");
    let detail = off_detail(patch_on, bypass_on);
    if patch_on {
        reveal_strlit("Обход ошибки 400 выключен.");
        assert(detail.subrange(1, 16) =~= "бход ошибки 400"@);
        assert(stands_at("бход ошибки 400"@, detail, 1));
        assert forall|i: int| 0 <= i < detail.len() implies #[trigger] detail[i] != 'Р'
            && detail[i] != 'з' by {}
        a_missing_character_is_not_mentioned(detail, "Разблокировка входа"@, 0);
        a_missing_character_is_not_mentioned(detail, "закроется"@, 0);
    } else {
        reveal_strlit(" Antigravity закроется на пару секунд.");
        let tail = " Antigravity закроется на пару секунд."@;
        if bypass_on {
            reveal_strlit("Разблокировка входа выключена.");
            let what = "Разблокировка входа выключена."@;
            assert(detail == what + tail);
            assert(detail.subrange(0, 19) =~= "Разблокировка входа"@);
            assert(stands_at("Разблокировка входа"@, detail, 0));
            assert(detail.subrange(43, 52) =~= "закроется"@);
            assert(stands_at("закроется"@, detail, 43));
            assert forall|i: int| 0 <= i < detail.len() implies #[trigger] detail[i] != '4' by {
                if i < what.len() {
                    assert(detail[i] == what[i]);
                } else {
                    assert(detail[i] == tail[i - what.len()]);
                }
            }
            a_missing_character_is_not_mentioned(detail, "бход ошибки 400"@, 12);
        } else {
            reveal_strlit("Разблокировка входа и обход ошибки 400 выключены.");
            let what = "Разблокировка входа и обход ошибки 400 выключены."@;
            assert(detail == what + tail);
            assert(detail.subrange(0, 19) =~= "Разблокировка входа"@);
            assert(stands_at("Разблокировка входа"@, detail, 0));
            assert(detail.subrange(23, 38) =~= "бход ошибки 400"@);
            assert(stands_at("бход ошибки 400"@, detail, 23));
            assert(detail.subrange(62, 71) =~= "закроется"@);
            assert(stands_at("закроется"@, detail, 62));
        }
    }
}

/// Which card the facts call for, told from the facts alone. Elevation is for
/// whoever cannot install or repair what there is to; turning on is for switches
/// that are off, where that can be done; repair is for a service that is down, old
/// or asked nothing. With all of that in place, an answer that no refusal is newer
/// than is proof; a newer refusal is being fixed for ten minutes unless it keeps
/// coming back, and asks for a check after that; and without either there is
/// nothing but to wait.
pub proof fn the_card_follows_from_the_facts(f: Facts, acted: Seq<char>)
    ensures
        ({
            let c = card(f, acted);
            let nothing = !f.installs_found && !f.patch_on && !f.bypass_on;
            let healthy = f.relay_running && !f.relay_outdated && f.rules;
            let in_place = f.patch_on && f.bypass_on && healthy;
            let ago = (f.refusal->0).0@;
            let refused = in_place && f.refusal is Some && (f.answer is None || ago
                < f.answer->0@);
            let fresh = ago <= 600 * crate::time::NANOS_PER_SEC;
            let lines = (f.refusal->0).1;
            let stuck = refused && fresh && lines >= 12;
            &&& c.action == Some(Action::Elevate) <==> !nothing && !f.admin && !(f.bypass_on
                && healthy)
            &&& c.action == Some(Action::EnableAll) <==> !nothing && !(f.patch_on && f.bypass_on)
                && (f.admin || (f.bypass_on && healthy))
            &&& c.action == Some(Action::Repair) <==> f.admin && f.patch_on && f.bypass_on
                && !healthy
            &&& c.tone == Tone::Proven <==> in_place && f.answer is Some && !refused
            &&& c.tone == Tone::Fixing <==> refused && fresh && lines < 12
            &&& c.tone == Tone::Action <==> stuck || c.action == Some(Action::Elevate) || c.action
                == Some(Action::Repair)
            &&& c.tone == Tone::Off <==> nothing || c.action == Some(Action::EnableAll)
            &&& c.tone == Tone::Wait <==> in_place && (refused && !fresh || f.refusal is None
                && f.answer is None)
            // And each has its title.
            &&& nothing ==> c.title == "Antigravity не найден"@
            &&& c.action == Some(Action::Elevate) ==> c.title == "Нужны права администратора"@
            &&& c.action == Some(Action::EnableAll) ==> c.title == "Включено не всё"@
            &&& c.action == Some(Action::Repair) ==> c.title == (if !f.relay_running {
                "Служба обхода не работает"@
            } else if f.relay_outdated {
                "Служба обхода устарела"@
            } else {
                "Служба обхода работает не полностью"@
            })
            &&& c.tone == Tone::Proven ==> c.title == "Работает"@
            &&& c.tone == Tone::Fixing ==> c.title == "Чиним"@
            &&& stuck ==> c.title == "Ошибка 400 повторяется"@
            &&& refused && !fresh ==> c.title == "Нужна проверка"@
            &&& in_place && f.refusal is None && f.answer is None ==> c.title == (
            if f.relay_reporting {
                "Всё включено"@
            } else {
                "Служба запускается"@
            })
        }),
{
}

/// No two situations share a title.
pub proof fn every_situation_is_told_apart(f: Facts, g: Facts, acted: Seq<char>)
    ensures
        card(f, acted).title == card(g, acted).title ==> f.situation() == g.situation(),
{
    reveal_strlit("Antigravity не найден");
    reveal_strlit("Нужны права администратора");
    reveal_strlit("Включено не всё");
    reveal_strlit("Служба обхода не работает");
    reveal_strlit("Служба обхода устарела");
    reveal_strlit("Служба обхода работает не полностью");
    reveal_strlit("Нужна проверка");
    reveal_strlit("Ошибка 400 повторяется");
    reveal_strlit("Чиним");
    reveal_strlit("Работает");
    reveal_strlit("Служба запускается");
    reveal_strlit("Всё включено");
    if card(f, acted).title == card(g, acted).title {
        assert(card(f, acted).title.len() == card(g, acted).title.len());
        assert(card(f, acted).title[0] == card(g, acted).title[0]);
        assert(card(f, acted).title[3] == card(g, acted).title[3]);
        assert(card(f, acted).title[7] == card(g, acted).title[7]);
        assert(card(f, acted).title[8] == card(g, acted).title[8]);
    }
}

/// A card about a refusal says how long ago it was, and what the relay did about it
/// where it did something; a card about an answer says how long ago that was, and by
/// which path where that has a name.
pub proof fn a_card_says_when_and_how(f: Facts, acted: Seq<char>)
    requires
        f.patch_on && f.bypass_on && f.relay_running && !f.relay_outdated && f.rules,
    ensures
        ({
            let detail = card(f, acted).detail;
            let refused = f.refusal is Some && (f.answer is None || (f.refusal->0).0@
                < f.answer->0@);
            &&& refused ==> mentions(detail, age((f.refusal->0).0.secs()))
            &&& card(f, acted).tone == Tone::Fixing && f.answered is Some && !(
            f.answered->0).bypassed && f.answered->0.acted@.len() > 0 ==> mentions(detail, acted)
            &&& !refused && f.answer is Some ==> mentions(detail, age(f.answer->0.secs()))
            &&& !refused && f.answer is Some && f.route is Some ==> mentions(detail, f.route->0@)
        }),
{
    let detail = card(f, acted).detail;
    match f.situation() {
        Situation::NeedsCheck => {
            a_text_mentions_its_parts(
                "Последний раз была ошибка 400 — "@,
                age(f.refused_ago().secs()),
                ", и после неё модель не отвечала. Напишите что-нибудь в Antigravity: если ошибка повторится, обход её поймает и сам сменит путь."@,
            );
        },
        Situation::Stuck => {
            a_text_mentions_its_parts(
                "Последняя — "@,
                age(f.refused_ago().secs()),
                ". Обход перебирает пути сам, но ни один пока не сработал. Если у вас включён VPN или прокси, попробуйте выключить его или сменить сервер, и отправьте сообщение ещё раз. Не помогло — нажмите «Скопировать отчёт» и пришлите его в группу."@,
            );
        },
        Situation::Fixing => {
            let when = age(f.refused_ago().secs());
            a_text_mentions_its_parts("Ошибка 400 — "@, when, fixing_tail(f.answered, acted));
            let end = ". Отправьте сообщение ещё раз."@;
            a_text_mentions_its_parts("Ошибка 400 — "@ + when + ". "@, acted, end);
            assert("Ошибка 400 — "@ + when + ". "@ + acted + end =~= "Ошибка 400 — "@ + when + (
            ". "@ + acted + end));
        },
        Situation::Working => {
            let when = age(f.answer->0.secs());
            a_text_mentions_its_parts("Модель ответила "@, when, path_tail(f.route) + "."@);
            assert(detail =~= "Модель ответила "@ + when + (path_tail(f.route) + "."@));
            if f.route is Some {
                let route = f.route->0@;
                if route.len() > 0 {
                    a_text_mentions_its_parts(
                        "Модель ответила "@ + when + " · путь: "@,
                        route,
                        "."@,
                    );
                    assert(detail =~= "Модель ответила "@ + when + " · путь: "@ + route + "."@);
                } else {
                    assert(detail.subrange(0, 0) =~= route);
                    assert(stands_at(route, detail, 0));
                }
            }
        },
        _ => {},
    }
}

/// An age of so many hours, minutes and seconds is said in the largest of these
/// that it has any of, and the smaller ones do not matter; below a quarter of a
/// minute no number is said at all.
pub proof fn an_age_is_said_in_its_largest_unit(hours: nat, minutes: nat, seconds: nat)
    requires
        minutes < 60,
        seconds < 60,
    ensures
        ({
            let said = age(3600 * hours + 60 * minutes + seconds);
            if hours > 0 {
                said == decimal(hours) + " "@ + plural_form(hours, "час"@, "часа"@, "часов"@)
                    + " назад"@
            } else if minutes > 0 {
                said == decimal(minutes) + " "@ + plural_form(
                    minutes,
                    "минуту"@,
                    "минуты"@,
                    "минут"@,
                ) + " назад"@
            } else if seconds >= 15 {
                said == decimal(seconds) + " "@ + plural_form(
                    seconds,
                    "секунду"@,
                    "секунды"@,
                    "секунд"@,
                ) + " назад"@
            } else {
                said == "только что"@
            }
        }),
{
    let secs: nat = 3600 * hours + 60 * minutes + seconds;
    if hours > 0 {
        assert(secs / 3600 == hours);
    } else if minutes > 0 {
        assert(secs / 60 == minutes);
    }
}

/// The form a noun takes goes by the last digit, but for the second ten, whose
/// numbers all take the last form.
pub proof fn the_second_ten_takes_one_form<T>(tens: nat, digit: nat, one: T, few: T, many: T)
    requires
        digit < 10,
    ensures
        ({
            let form = plural_form(10 * tens + digit, one, few, many);
            &&& tens % 10 == 1 ==> form == many
            &&& tens % 10 != 1 && digit == 1 ==> form == one
            &&& tens % 10 != 1 && (digit == 2 || digit == 3 || digit == 4) ==> form == few
            &&& tens % 10 != 1 && (digit == 0 || digit > 4) ==> form == many
        }),
{
    let n = 10 * tens + digit;
    assert(n % 10 == digit);
    assert(n % 100 == 10 * (tens % 10) + digit);
}

/// Capitalising touches the first character alone.
pub proof fn capitalising_touches_the_first_character(s: Seq<char>)
    requires
        s.len() > 0,
    ensures
        ({
            let head = crate::text::upper_of_char(s[0]);
            &&& capitalised(s).len() == head.len() + s.len() - 1
            &&& capitalised(s).take(head.len() as int) == head
            &&& forall|i: int|
                1 <= i < s.len() ==> capitalised(s)[head.len() + i - 1] == #[trigger] s[i]
        }),
{
}

/// A card with nothing to tell of a time says the same whoever reads it; and one
/// about a client that went around us, or that keeps being refused, says what is
/// left to try.
pub proof fn the_card_says_what_to_do(f: Facts, acted: Seq<char>)
    ensures
        ({
            let c = card(f, acted);
            let in_place = f.patch_on && f.bypass_on && f.relay_running && !f.relay_outdated
                && f.rules;
            let when = age((f.refusal->0).0.secs());
            &&& c.tone == Tone::Off && c.action is None ==> c.detail
                == "Установите Antigravity или укажите папку с ним ниже — карандаш рядом с нужной строкой."@
            &&& c.action == Some(Action::Elevate) ==> c.detail
                == "Без них обход ошибки 400 не установить и не починить. Разблокировка входа работает и так."@
            &&& c.action == Some(Action::Repair) ==> c.detail
                == "Без неё ошибка 400 не обходится. Кнопка переустановит и запустит её."@
            &&& in_place && f.refusal is None && f.answer is None ==> c.detail == (
            if f.relay_reporting {
                "Напишите что-нибудь в чат Antigravity — здесь появится подтверждение, что модель ответила."@
            } else {
                "Это занимает до минуты. Потом напишите что-нибудь в Antigravity."@
            })
            &&& in_place && c.tone == Tone::Action ==> c.detail == "Последняя — "@ + when
                + ". Обход перебирает пути сам, но ни один пока не сработал. Если у вас включён VPN или прокси, попробуйте выключить его или сменить сервер, и отправьте сообщение ещё раз. Не помогло — нажмите «Скопировать отчёт» и пришлите его в группу."@
            &&& c.tone == Tone::Fixing && f.answered is Some && (f.answered->0).bypassed
                ==> c.detail == "Ошибка 400 — "@ + when
                + ". Antigravity обратился к Google мимо обхода; через минуту его запросы пойдут через обход. Отправьте сообщение ещё раз — не помогло, перезапустите Antigravity."@
            &&& c.tone == Tone::Fixing && (f.answered is None || (!(f.answered->0).bypassed
                && f.answered->0.acted@.len() == 0)) ==> c.detail == "Ошибка 400 — "@ + when
                + ". Обход её видит и перестраивается. Отправьте сообщение ещё раз."@
        }),
{
}

/// What the relay did about a refusal reaches the card in its own words, all but the
/// case of the first letter.
pub proof fn the_relays_words_reach_the_card(f: Facts)
    requires
        card(f, capitalised(f.acted())).tone == Tone::Fixing,
        f.answered is Some,
        !(f.answered->0).bypassed,
        f.answered->0.acted@.len() > 0,
    ensures
        mentions(card(f, capitalised(f.acted())).detail, f.answered->0.acted@.skip(1)),
{
    let words = f.answered->0.acted@;
    let said = capitalised(words);
    let head = crate::text::upper_of_char(words[0]);
    a_card_says_when_and_how(f, said);
    assert(said =~= head + words.skip(1) + Seq::<char>::empty());
    a_text_mentions_its_parts(head, words.skip(1), Seq::empty());
    let detail = card(f, said).detail;
    let i = choose|i: int| stands_at(said, detail, i);
    let before = detail.take(i);
    let behind = detail.skip(i + said.len());
    assert(detail =~= before + said + behind);
    what_a_part_mentions_is_mentioned(before, said, behind, words.skip(1));
}

} // verus!
