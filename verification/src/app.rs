//! The game itself: what every key, focus pulse, distraction and second does
//! to the hero, the boss and the log.
//!
//! Sounds, desktop notifications and the victory message to the webhook are
//! not played or sent here: each step returns them, in order, as [`Effect`]s,
//! for the program around the game to carry out.
use vstd::prelude::*;
use crate::models::{
    boss_for, items_view, strings_view, AppConfig, Boss, BossView, Character, CharacterView,
    ConfigView, GameStatus, Item, ItemType, ItemView,
};
use crate::text::{decimal, push_decimal};
use crate::watcher::Event;

verus! {

/// A sound the game plays.
#[derive(Clone, Copy, Debug, PartialEq, Eq, Structural)]
pub enum Sound {
    Hit,
    Damage,
    Victory,
}

/// A desktop notification the game shows.
#[derive(Clone, Copy, Debug, PartialEq, Eq, Structural)]
pub enum Notice {
    MandatoryBreak,
    Victory,
    QuestFailed,
    TrapSprung,
    BreakOver,
}

/// Something outside the game that a step asks for.
#[derive(Debug)]
pub enum Effect {
    Play(Sound),
    Notify(Notice),
    /// Tell the webhook at `url` that the hero, now at `level`, beat `boss_name`.
    Announce { url: String, boss_name: String, level: u32 },
}

pub enum EffectView {
    Play(Sound),
    Notify(Notice),
    Announce { url: Seq<char>, boss_name: Seq<char>, level: u32 },
}

impl View for Effect {
    type V = EffectView;

    open spec fn view(&self) -> EffectView {
        match self {
            Effect::Play(s) => EffectView::Play(*s),
            Effect::Notify(n) => EffectView::Notify(*n),
            Effect::Announce { url, boss_name, level } => EffectView::Announce {
                url: url@,
                boss_name: boss_name@,
                level: *level,
            },
        }
    }
}

pub open spec fn effects_view(e: Seq<Effect>) -> Seq<EffectView> {
    e.map_values(|x: Effect| x@)
}

impl Notice {
    /// The notification's title.
    pub fn summary(&self) -> (s: String)
        ensures
            s@ == notice_summary(*self),
    {
        match self {
            Notice::MandatoryBreak => "MANDATORY BREAK".to_string(),
            Notice::Victory => "VICTORY".to_string(),
            Notice::QuestFailed => "QUEST FAILED".to_string(),
            Notice::TrapSprung => "TRAP SPRUNG".to_string(),
            Notice::BreakOver => "BREAK OVER".to_string(),
        }
    }

    /// The notification's text.
    pub fn body(&self) -> (s: String)
        ensures
            s@ == notice_body(*self),
    {
        match self {
            Notice::MandatoryBreak => "Step away from the keyboard!".to_string(),
            Notice::Victory => "Boss defeated!".to_string(),
            Notice::QuestFailed => "You were overwhelmed.".to_string(),
            Notice::TrapSprung => "Return to terminal!".to_string(),
            Notice::BreakOver => "Time to get back to work!".to_string(),
        }
    }
}

pub open spec fn notice_summary(n: Notice) -> Seq<char> {
    match n {
        Notice::MandatoryBreak => "MANDATORY BREAK"@,
        Notice::Victory => "VICTORY"@,
        Notice::QuestFailed => "QUEST FAILED"@,
        Notice::TrapSprung => "TRAP SPRUNG"@,
        Notice::BreakOver => "BREAK OVER"@,
    }
}

pub open spec fn notice_body(n: Notice) -> Seq<char> {
    match n {
        Notice::MandatoryBreak => "Step away from the keyboard!"@,
        Notice::Victory => "Boss defeated!"@,
        Notice::QuestFailed => "You were overwhelmed."@,
        Notice::TrapSprung => "Return to terminal!"@,
        Notice::BreakOver => "Time to get back to work!"@,
    }
}

/// Focus pulses in a row that earn a mandatory break (about 25 minutes of typing).
pub open spec fn streak_for_break() -> u32 {
    1500
}

/// Tenths of damage that one focus pulse does before weapons.
pub open spec fn pulse_damage_base() -> u32 {
    5
}

/// Seconds that a mandatory break lasts.
pub open spec fn break_seconds() -> u32 {
    300
}

/// The sum of the powers (in tenths) of the items of one kind.
pub open spec fn power_of(items: Seq<ItemView>, kind: ItemType) -> int
    decreases items.len(),
{
    if items.len() == 0 {
        0
    } else {
        power_of(items.drop_last(), kind) + if items.last().item_type == kind {
            items.last().power as int
        } else {
            0
        }
    }
}

/// Whether some item is of this kind.
pub open spec fn has_kind(items: Seq<ItemView>, kind: ItemType) -> bool {
    exists|i: int| 0 <= i < items.len() && #[trigger] items[i].item_type == kind
}

/// `i` is the position of the first item of this kind.
pub open spec fn is_first_of(items: Seq<ItemView>, kind: ItemType, i: int) -> bool {
    &&& 0 <= i < items.len()
    &&& items[i].item_type == kind
    &&& forall|j: int| 0 <= j < i ==> #[trigger] items[j].item_type != kind
}

/// The position of the first item of this kind (where there is one).
pub open spec fn first_of(items: Seq<ItemView>, kind: ItemType) -> int {
    choose|i: int| is_first_of(items, kind, i)
}

/// Hit points lost to a trap of `amount`, once shields of total power
/// `shield` (tenths) have taken their share: at least one, and nothing
/// taken off at all once shields reach 100%.
pub open spec fn reduced_damage(amount: u32, shield: int) -> int {
    if shield >= 10 {
        1
    } else {
        let r: int = (amount * (10 - shield)) / 10;
        if r < 1 {
            1
        } else {
            r
        }
    }
}

pub open spec fn item_view(name: Seq<char>, kind: ItemType, power: u32) -> ItemView {
    ItemView { name, item_type: kind, power }
}

/// The whole state of a game.
#[verifier::ext_equal]
pub struct AppView {
    pub character: CharacterView,
    pub config: ConfigView,
    pub current_boss: Option<BossView>,
    pub status: GameStatus,
    pub logs: Seq<Seq<char>>,
    pub distraction_timer: u32,
    pub focus_streak: u32,
    pub pomodoro_break: bool,
    pub break_timer: u32,
}

pub open spec fn boss_view(b: Option<Boss>) -> Option<BossView> {
    match b {
        Some(b) => Some(b@),
        None => None,
    }
}

/// A game: the hero, the settings, the boss being fought and what the screen shows.
pub struct App {
    pub character: Character,
    pub config: AppConfig,
    pub current_boss: Option<Boss>,
    pub status: GameStatus,
    pub logs: Vec<String>,
    pub distraction_timer: u32,
    pub focus_streak: u32,
    pub pomodoro_break: bool,
    pub break_timer: u32,
}

impl View for App {
    type V = AppView;

    open spec fn view(&self) -> AppView {
        AppView {
            character: self.character@,
            config: self.config@,
            current_boss: boss_view(self.current_boss),
            status: self.status,
            logs: strings_view(self.logs@),
            distraction_timer: self.distraction_timer,
            focus_streak: self.focus_streak,
            pomodoro_break: self.pomodoro_break,
            break_timer: self.break_timer,
        }
    }
}

/// The hero of a new game.
pub open spec fn new_character() -> CharacterView {
    CharacterView {
        hp: 100,
        max_hp: 100,
        xp: 0,
        level: 1,
        gold: 0,
        inventory: Seq::empty(),
        bosses_defeated: 0,
        focus_pulses: 0,
        focus_history: Seq::empty(),
    }
}

/// A new game: a fresh hero at the camp, and one line in the log.
pub open spec fn new_game(config: ConfigView) -> AppView {
    AppView {
        character: new_character(),
        config,
        current_boss: None,
        status: GameStatus::Resting,
        logs: seq!["System Initialized."@],
        distraction_timer: 0,
        focus_streak: 0,
        pomodoro_break: false,
        break_timer: 0,
    }
}

/// A saved hero back at the camp; the log, the boss and the timers start afresh.
pub open spec fn resumed_game(character: CharacterView, config: ConfigView) -> AppView {
    AppView {
        character,
        config,
        current_boss: None,
        status: GameStatus::Resting,
        logs: Seq::empty(),
        distraction_timer: 0,
        focus_streak: 0,
        pomodoro_break: false,
        break_timer: 0,
    }
}

impl AppView {
    /// The hero's hit points do not exceed the maximum.
    pub open spec fn hp_bounded(self) -> bool {
        self.character.hp <= self.character.max_hp
    }

    pub open spec fn with_log(self, msg: Seq<char>) -> AppView {
        AppView { logs: self.logs.push(msg), ..self }
    }

    pub open spec fn with_character(self, c: CharacterView) -> AppView {
        AppView { character: c, ..self }
    }

    /// Changing screens, which is refused while a battle is on.
    pub open spec fn set_status_spec(self, new_status: GameStatus) -> AppView {
        if self.status == GameStatus::Battling && new_status != GameStatus::Battling {
            self
        } else {
            AppView { status: new_status, ..self }
        }
    }

    /// Opening or closing the dashboard (refused while a battle is on).
    pub open spec fn toggle_dashboard_spec(self) -> AppView {
        if self.status == GameStatus::Dashboard {
            self.set_status_spec(GameStatus::Resting)
        } else {
            self.set_status_spec(GameStatus::Dashboard)
        }
    }

    pub open spec fn start_boss_spec(self, name: Seq<char>, minutes: u32) -> AppView {
        AppView {
            current_boss: Some(boss_for(name, minutes)),
            status: GameStatus::Battling,
            focus_streak: 0,
            ..self
        }.with_log("Engaging: "@ + name)
    }

    /// Damage of a focus pulse of `base` tenths, with the weapons' power.
    pub open spec fn pulse_damage(self, base: u32) -> int {
        base + power_of(self.character.inventory, ItemType::Weapon)
    }

    /// The bounds on the counters that beating the current boss needs.
    pub open spec fn victory_fits(self) -> bool {
        &&& self.current_boss is Some
        &&& self.character.xp + 100 <= u32::MAX
        &&& self.character.bosses_defeated + 1 <= u32::MAX
        &&& self.character.level * 100 <= u32::MAX
        &&& self.victory_gold() <= u32::MAX
        &&& self.character.gold + self.victory_gold() <= u32::MAX
    }

    /// Gold for the current boss: five a minute of its task (none for a boss
    /// without health).
    pub open spec fn victory_gold(self) -> int {
        let max_hp = self.current_boss->0.max_hp;
        if max_hp <= 0 {
            0
        } else {
            (max_hp / 100) * 5
        }
    }

    /// The rewards of beating the current boss.
    pub open spec fn victory_spec(self) -> AppView {
        let c = self.character;
        let xp: int = c.xp + 100;
        let gold: int = self.victory_gold();
        let rewarded = CharacterView {
            xp: xp as u32,
            bosses_defeated: (c.bosses_defeated + 1) as u32,
            gold: (c.gold + gold) as u32,
            ..c
        };
        let leveled = xp >= c.level * 100;
        let after_level = if leveled {
            self.with_character(
                CharacterView { level: (c.level + 1) as u32, hp: c.max_hp, ..rewarded },
            ).with_log("LEVEL UP! HP Fully Restored."@)
        } else {
            self.with_character(rewarded)
        };
        let with_elixir = after_level.with_character(
            CharacterView {
                inventory: after_level.character.inventory.push(
                    item_view("Caffeine Elixir"@, ItemType::Elixir, 0),
                ),
                ..after_level.character
            },
        );
        with_elixir.with_log(
            "Target eliminated. Found "@ + decimal(gold as nat) + " Gold and an Elixir."@,
        )
    }

    pub open spec fn victory_effects(self) -> Seq<EffectView> {
        let c = self.character;
        let level: u32 = if c.xp + 100 >= c.level * 100 {
            (c.level + 1) as u32
        } else {
            c.level
        };
        let sound = if self.config.audio_enabled {
            seq![EffectView::Play(Sound::Victory)]
        } else {
            Seq::empty()
        };
        sound + seq![
            EffectView::Announce {
                url: self.config.discord_webhook_url,
                boss_name: self.current_boss->0.name,
                level,
            },
            EffectView::Notify(Notice::Victory),
        ]
    }

    /// What the counters of a focus pulse need not to overflow.
    pub open spec fn register_focus_fits(self, base: u32) -> bool {
        &&& self.character.focus_pulses < u32::MAX
        &&& self.status == GameStatus::Battling && !self.pomodoro_break ==> {
            &&& self.focus_streak < u32::MAX
            &&& (self.focus_streak + 1 < streak_for_break() && self.current_boss is Some) ==> {
                &&& self.current_boss->0.hp - self.pulse_damage(base) >= i64::MIN
                &&& self.current_boss->0.hp - self.pulse_damage(base) <= 0 ==> self.victory_fits()
            }
        }
    }

    /// A focus pulse: it counts, clears the distraction timer, and in a battle
    /// either bounces off the break shield, earns the break, or hits the boss.
    pub open spec fn register_focus_spec(self, base: u32) -> AppView {
        let pulsed = AppView {
            character: CharacterView {
                focus_pulses: (self.character.focus_pulses + 1) as u32,
                ..self.character
            },
            distraction_timer: 0,
            ..self
        };
        if self.status != GameStatus::Battling {
            pulsed
        } else if self.pomodoro_break {
            pulsed.with_log("SHIELD OF REST is active! Your attacks bounce off. Go drink water!"@)
        } else {
            let streak: u32 = (self.focus_streak + 1) as u32;
            if streak >= streak_for_break() {
                AppView {
                    focus_streak: streak,
                    pomodoro_break: true,
                    break_timer: break_seconds(),
                    ..pulsed
                }.with_log("POMODORO SHIELD ACTIVATED! 5 minute mandatory break."@)
            } else {
                let s = AppView { focus_streak: streak, ..pulsed };
                match s.current_boss {
                    None => s,
                    Some(b) => {
                        let hp: int = b.hp - s.pulse_damage(base);
                        let hit = AppView {
                            current_boss: Some(BossView { hp: hp as i64, ..b }),
                            ..s
                        };
                        if hp <= 0 {
                            AppView { status: GameStatus::Victorious, ..hit }.victory_spec()
                        } else {
                            hit
                        }
                    },
                }
            }
        }
    }

    pub open spec fn register_focus_effects(self, base: u32) -> Seq<EffectView> {
        if self.status != GameStatus::Battling || self.pomodoro_break {
            Seq::empty()
        } else if self.focus_streak + 1 >= streak_for_break() {
            seq![EffectView::Notify(Notice::MandatoryBreak)]
        } else {
            let hit = if self.config.audio_enabled {
                seq![EffectView::Play(Sound::Hit)]
            } else {
                Seq::empty()
            };
            match self.current_boss {
                Some(b) => if b.hp - self.pulse_damage(base) <= 0 {
                    hit + self.victory_effects()
                } else {
                    hit
                },
                None => hit,
            }
        }
    }

    /// A purchase from the merchant: armor (100 gold), switches (150) or a mute (75).
    pub open spec fn buy_item_spec(self, item_id: u8) -> AppView {
        let c = self.character;
        if item_id == 1 && c.gold >= 100 {
            self.with_character(
                CharacterView {
                    gold: (c.gold - 100) as u32,
                    max_hp: (c.max_hp + 50) as u32,
                    hp: (c.hp + 50) as u32,
                    ..c
                },
            ).with_log("Bought Heavy Armor: Max HP +50"@)
        } else if item_id == 2 && c.gold >= 150 {
            self.with_character(
                CharacterView {
                    gold: (c.gold - 150) as u32,
                    inventory: c.inventory.push(
                        item_view("Mechanical Switches"@, ItemType::Weapon, 5),
                    ),
                    ..c
                },
            ).with_log("Bought Mechanical Switches: Damage +0.5"@)
        } else if item_id == 3 && c.gold >= 75 {
            self.with_character(
                CharacterView {
                    gold: (c.gold - 75) as u32,
                    inventory: c.inventory.push(item_view("Siren's Mute"@, ItemType::Shield, 2)),
                    ..c
                },
            ).with_log("Bought Siren's Mute: Distraction Damage -20%"@)
        } else {
            self.with_log("Not enough Gold or invalid item."@)
        }
    }

    pub open spec fn buy_item_fits(self, item_id: u8) -> bool {
        item_id == 1 && self.character.gold >= 100 ==> {
            &&& self.character.max_hp + 50 <= u32::MAX
            &&& self.character.hp + 50 <= u32::MAX
        }
    }

    /// A trap: the hero loses the reduced damage, and falls at zero hit points.
    pub open spec fn take_damage_spec(self, amount: u32) -> AppView {
        if self.pomodoro_break {
            self
        } else {
            let lost: int = reduced_damage(amount, power_of(self.character.inventory, ItemType::Shield));
            let hp: int = if lost >= self.character.hp {
                0
            } else {
                self.character.hp - lost
            };
            let hurt = self.with_character(CharacterView { hp: hp as u32, ..self.character });
            if hp == 0 {
                AppView { status: GameStatus::Defeated, ..hurt }
            } else {
                hurt
            }
        }
    }

    pub open spec fn take_damage_effects(self, amount: u32) -> Seq<EffectView> {
        if self.pomodoro_break {
            Seq::empty()
        } else {
            let lost: int = reduced_damage(amount, power_of(self.character.inventory, ItemType::Shield));
            let sound = if self.config.audio_enabled {
                seq![EffectView::Play(Sound::Damage)]
            } else {
                Seq::empty()
            };
            if lost >= self.character.hp {
                sound.push(EffectView::Notify(Notice::QuestFailed))
            } else {
                sound
            }
        }
    }

    /// Drinking the first elixir of the inventory, which heals up to the maximum.
    pub open spec fn use_elixir_spec(self) -> AppView {
        let c = self.character;
        if has_kind(c.inventory, ItemType::Elixir) {
            let healed: int = c.hp + self.config.base_heal_amount;
            let hp: int = if healed < c.max_hp {
                healed
            } else {
                c.max_hp as int
            };
            self.with_character(
                CharacterView {
                    inventory: c.inventory.remove(first_of(c.inventory, ItemType::Elixir)),
                    hp: hp as u32,
                    ..c
                },
            ).with_log("Healed "@ + decimal(self.config.base_heal_amount as nat) + " HP."@)
        } else {
            self
        }
    }

    pub open spec fn use_elixir_fits(self) -> bool {
        has_kind(self.character.inventory, ItemType::Elixir) ==> self.character.hp
            + self.config.base_heal_amount <= u32::MAX
    }

    /// A second spent in a distracting program.
    pub open spec fn track_distraction_spec(self) -> AppView {
        if self.pomodoro_break {
            self
        } else {
            let t = AppView {
                distraction_timer: (self.distraction_timer + 1) as u32,
                focus_streak: 0,
                ..self
            };
            if t.distraction_timer > self.config.grace_period_seconds {
                t.take_damage_spec(2)
            } else {
                t
            }
        }
    }

    pub open spec fn track_distraction_effects(self) -> Seq<EffectView> {
        if self.pomodoro_break {
            Seq::empty()
        } else {
            let t = AppView {
                distraction_timer: (self.distraction_timer + 1) as u32,
                focus_streak: 0,
                ..self
            };
            let warn = if t.distraction_timer == self.config.grace_period_seconds + 1 {
                seq![EffectView::Notify(Notice::TrapSprung)]
            } else {
                Seq::empty()
            };
            if t.distraction_timer > self.config.grace_period_seconds {
                warn + t.take_damage_effects(2)
            } else {
                warn
            }
        }
    }

    pub open spec fn track_distraction_fits(self) -> bool {
        !self.pomodoro_break ==> {
            &&& self.distraction_timer < u32::MAX
            &&& self.config.grace_period_seconds < u32::MAX
        }
    }

    /// A second of the clock: the break runs down and ends at zero.
    pub open spec fn tick_spec(self) -> AppView {
        if self.pomodoro_break {
            let left: u32 = if self.break_timer == 0 {
                0
            } else {
                (self.break_timer - 1) as u32
            };
            if left == 0 {
                AppView {
                    break_timer: 0,
                    pomodoro_break: false,
                    focus_streak: 0,
                    ..self
                }.with_log("Shield lowered. You may resume your quest."@)
            } else {
                AppView { break_timer: left, ..self }
            }
        } else {
            self
        }
    }

    /// What the main loop does with an event of the watcher: a distraction
    /// counts only in battle, a focus pulse hits for half a point (5 tenths).
    pub open spec fn handle_event_spec(self, event: Event) -> AppView {
        match event {
            Event::DistractionDetected => if self.status == GameStatus::Battling {
                self.track_distraction_spec()
            } else {
                self
            },
            Event::FocusPulse => self.register_focus_spec(pulse_damage_base()),
            Event::Tick => self,
        }
    }

    pub open spec fn handle_event_effects(self, event: Event) -> Seq<EffectView> {
        match event {
            Event::DistractionDetected => if self.status == GameStatus::Battling {
                self.track_distraction_effects()
            } else {
                Seq::empty()
            },
            Event::FocusPulse => self.register_focus_effects(pulse_damage_base()),
            Event::Tick => Seq::empty(),
        }
    }

    pub open spec fn handle_event_fits(self, event: Event) -> bool {
        match event {
            Event::DistractionDetected => self.status == GameStatus::Battling
                ==> self.track_distraction_fits(),
            Event::FocusPulse => self.register_focus_fits(pulse_damage_base()),
            Event::Tick => true,
        }
    }

    /// What a key does: `u` drinks an elixir, `s` toggles the dashboard, `n`
    /// starts the next challenge (15 minutes) from the camp or the dashboard;
    /// `q` quits and every other key does nothing.
    pub open spec fn key_spec(self, key: char) -> AppView {
        if key == 'u' {
            self.use_elixir_spec()
        } else if key == 's' {
            self.toggle_dashboard_spec()
        } else if key == 'n' && (self.status == GameStatus::Resting || self.status
            == GameStatus::Dashboard) {
            self.start_boss_spec("Next Challenge"@, 15)
        } else {
            self
        }
    }

    pub open spec fn tick_effects(self) -> Seq<EffectView> {
        if self.pomodoro_break && self.break_timer <= 1 {
            seq![EffectView::Notify(Notice::BreakOver)]
        } else {
            Seq::empty()
        }
    }
}


/// The sum of the powers of the items of one kind.
fn power_sum(items: &Vec<Item>, kind: ItemType) -> (total: u128)
    ensures
        total == power_of(items_view(items@), kind),
        total <= items.len() * 0xffff_ffffu128,
{
    let ghost all = items_view(items@);
    let mut total: u128 = 0;
    let mut i: usize = 0;
    while i < items.len()
        invariant
            i <= items.len(),
            all == items_view(items@),
            total == power_of(all.take(i as int), kind),
            total <= i * 0xffff_ffffu128,
        decreases items.len() - i,
    {
        assert(all.take(i + 1).drop_last() =~= all.take(i as int));
        assert(all.take(i + 1).last() == items@[i as int]@);
        if items[i].item_type == kind {
            total = total + items[i].power as u128;
        }
        i = i + 1;
    }
    assert(all.take(i as int) =~= all);
    total
}

impl App {
    /// A new game with these settings.
    pub fn new(config: AppConfig) -> (app: App)
        ensures
            app@ == new_game(config@),
    {
        let mut logs: Vec<String> = Vec::new();
        logs.push("System Initialized.".to_string());
        let app = App {
            character: Character {
                hp: 100,
                max_hp: 100,
                xp: 0,
                level: 1,
                gold: 0,
                inventory: Vec::new(),
                bosses_defeated: 0,
                focus_pulses: 0,
                focus_history: Vec::new(),
            },
            config,
            current_boss: None,
            status: GameStatus::Resting,
            logs,
            distraction_timer: 0,
            focus_streak: 0,
            pomodoro_break: false,
            break_timer: 0,
        };
        assert(app@.logs =~= seq!["System Initialized."@]);
        assert(app@.character.inventory =~= Seq::<ItemView>::empty());
        assert(app@.character.focus_history =~= Seq::<(Seq<char>, u64)>::empty());
        app
    }

    /// A saved hero back in the game, at rest, with these settings; the log,
    /// the boss and the timers are not saved and start afresh.
    pub fn from_saved(character: Character, config: AppConfig) -> (app: App)
        ensures
            app@ == resumed_game(character@, config@),
    {
        let app = App {
            character,
            config,
            current_boss: None,
            status: GameStatus::Resting,
            logs: Vec::new(),
            distraction_timer: 0,
            focus_streak: 0,
            pomodoro_break: false,
            break_timer: 0,
        };
        assert(app@.logs =~= Seq::<Seq<char>>::empty());
        app
    }

    fn log(&mut self, msg: String)
        ensures
            final(self)@ == old(self)@.with_log(msg@),
    {
        self.logs.push(msg);
        assert(strings_view(self.logs@) =~= strings_view(old(self).logs@).push(msg@));
    }

    /// Switches screens, unless a battle is on and the new screen is another.
    pub fn set_status(&mut self, new_status: GameStatus)
        ensures
            final(self)@ == old(self)@.set_status_spec(new_status),
    {
        if self.status == GameStatus::Battling && new_status != GameStatus::Battling {
            return;
        }
        self.status = new_status;
    }

    /// Opens the dashboard, or closes it back to the camp.
    pub fn toggle_dashboard(&mut self)
        ensures
            final(self)@ == old(self)@.toggle_dashboard_spec(),
    {
        if self.status == GameStatus::Dashboard {
            self.set_status(GameStatus::Resting);
        } else {
            self.set_status(GameStatus::Dashboard);
        }
    }

    /// Starts a battle against the task `name` of `minutes` minutes.
    pub fn start_boss(&mut self, name: &str, minutes: u32)
        ensures
            final(self)@ == old(self)@.start_boss_spec(name@, minutes),
    {
        self.current_boss = Some(Boss::new(name.to_string(), minutes));
        self.status = GameStatus::Battling;
        self.focus_streak = 0;
        let mut msg = "Engaging: ".to_string();
        msg.append(name);
        self.log(msg);
    }

    /// A second passes.
    pub fn tick(&mut self) -> (effects: Vec<Effect>)
        ensures
            final(self)@ == old(self)@.tick_spec(),
            effects_view(effects@) == old(self)@.tick_effects(),
    {
        let mut effects: Vec<Effect> = Vec::new();
        if self.pomodoro_break {
            self.break_timer = self.break_timer.saturating_sub(1);
            if self.break_timer == 0 {
                self.pomodoro_break = false;
                self.focus_streak = 0;
                self.log("Shield lowered. You may resume your quest.".to_string());
                effects.push(Effect::Notify(Notice::BreakOver));
            }
        }
        assert(effects_view(effects@) =~= old(self)@.tick_effects());
        effects
    }

    /// A trap of `amount` hit points, softened by the shields; nothing happens
    /// during a break.
    pub fn take_damage(&mut self, amount: u32) -> (effects: Vec<Effect>)
        ensures
            final(self)@ == old(self)@.take_damage_spec(amount),
            effects_view(effects@) == old(self)@.take_damage_effects(amount),
            old(self)@.hp_bounded() ==> final(self)@.hp_bounded(),
    {
        let mut effects: Vec<Effect> = Vec::new();
        if self.pomodoro_break {
            assert(effects_view(effects@) =~= old(self)@.take_damage_effects(amount));
            return effects;
        }
        let shield: u128 = power_sum(&self.character.inventory, ItemType::Shield);
        let ghost spec_shield = power_of(self@.character.inventory, ItemType::Shield);
        let reduced: u32 = if shield >= 10 {
            1
        } else {
            let factor: u64 = (10 - shield) as u64;
            assert((amount as u64) * factor <= (amount as u64) * 10) by (nonlinear_arith)
                requires
                    factor <= 10,
            ;
            let r: u64 = (amount as u64) * factor / 10;
            assert(r <= amount) by (nonlinear_arith)
                requires
                    r == (amount as u64) * factor / 10,
                    factor <= 10,
            ;
            if r < 1 {
                1
            } else {
                r as u32
            }
        };
        assert(reduced == reduced_damage(amount, spec_shield));
        self.character.hp = self.character.hp.saturating_sub(reduced);
        if self.config.audio_enabled {
            effects.push(Effect::Play(Sound::Damage));
        }
        if self.character.hp == 0 {
            self.status = GameStatus::Defeated;
            effects.push(Effect::Notify(Notice::QuestFailed));
        }
        assert(effects_view(effects@) =~= old(self)@.take_damage_effects(amount));
        effects
    }

    /// A second in a distracting program: the focus streak is lost and, once
    /// the grace period is over, the trap bites.
    pub fn track_distraction(&mut self) -> (effects: Vec<Effect>)
        requires
            old(self)@.track_distraction_fits(),
        ensures
            final(self)@ == old(self)@.track_distraction_spec(),
            effects_view(effects@) == old(self)@.track_distraction_effects(),
            old(self)@.hp_bounded() ==> final(self)@.hp_bounded(),
    {
        let mut effects: Vec<Effect> = Vec::new();
        if self.pomodoro_break {
            assert(effects_view(effects@) =~= old(self)@.track_distraction_effects());
            return effects;
        }
        self.distraction_timer = self.distraction_timer + 1;
        self.focus_streak = 0;
        if self.distraction_timer == self.config.grace_period_seconds + 1 {
            effects.push(Effect::Notify(Notice::TrapSprung));
        }
        let ghost warned = effects@;
        if self.distraction_timer > self.config.grace_period_seconds {
            let mut more = self.take_damage(2);
            let ghost extra = more@;
            effects.append(&mut more);
            assert(effects_view(effects@) =~= effects_view(warned) + effects_view(extra));
        }
        assert(effects_view(effects@) =~= old(self)@.track_distraction_effects());
        effects
    }

    /// Buys item 1 (Heavy Armor), 2 (Mechanical Switches) or 3 (Siren's Mute)
    /// if the hero has the gold; anything else is only logged.
    pub fn buy_item(&mut self, item_id: u8)
        requires
            old(self)@.buy_item_fits(item_id),
        ensures
            final(self)@ == old(self)@.buy_item_spec(item_id),
            old(self)@.hp_bounded() ==> final(self)@.hp_bounded(),
    {
        if item_id == 1 && self.character.gold >= 100 {
            self.character.gold = self.character.gold - 100;
            self.character.max_hp = self.character.max_hp + 50;
            self.character.hp = self.character.hp + 50;
            self.log("Bought Heavy Armor: Max HP +50".to_string());
        } else if item_id == 2 && self.character.gold >= 150 {
            self.character.gold = self.character.gold - 150;
            self.add_item("Mechanical Switches".to_string(), ItemType::Weapon, 5);
            self.log("Bought Mechanical Switches: Damage +0.5".to_string());
        } else if item_id == 3 && self.character.gold >= 75 {
            self.character.gold = self.character.gold - 75;
            self.add_item("Siren's Mute".to_string(), ItemType::Shield, 2);
            self.log("Bought Siren's Mute: Distraction Damage -20%".to_string());
        } else {
            self.log("Not enough Gold or invalid item.".to_string());
        }
    }

    fn add_item(&mut self, name: String, kind: ItemType, power: u32)
        ensures
            final(self)@ == old(self)@.with_character(
                CharacterView {
                    inventory: old(self)@.character.inventory.push(item_view(name@, kind, power)),
                    ..old(self)@.character
                },
            ),
    {
        let item = Item { name, item_type: kind, power };
        self.character.inventory.push(item);
        assert(items_view(self.character.inventory@) =~= items_view(
            old(self).character.inventory@,
        ).push(item_view(name@, kind, power)));
    }

    /// Drinks the first elixir of the inventory, if there is one.
    pub fn use_elixir(&mut self)
        requires
            old(self)@.use_elixir_fits(),
        ensures
            final(self)@ == old(self)@.use_elixir_spec(),
            old(self)@.hp_bounded() ==> final(self)@.hp_bounded(),
    {
        match find_first(&self.character.inventory, ItemType::Elixir) {
            Some(pos) => {
                proof {
                    lemma_first_of_is(items_view(self.character.inventory@), ItemType::Elixir, pos as int);
                }
                let _drunk = self.character.inventory.remove(pos);
                assert(items_view(self.character.inventory@) =~= items_view(
                    old(self).character.inventory@,
                ).remove(pos as int));
                let healed: u32 = self.character.hp + self.config.base_heal_amount;
                self.character.hp = if healed < self.character.max_hp {
                    healed
                } else {
                    self.character.max_hp
                };
                let mut msg = "Healed ".to_string();
                push_decimal(&mut msg, self.config.base_heal_amount as u64);
                msg.append(" HP.");
                self.log(msg);
            },
            None => {},
        }
    }

    /// The rewards of beating the current boss.
    fn process_victory(&mut self) -> (effects: Vec<Effect>)
        requires
            old(self)@.victory_fits(),
        ensures
            final(self)@ == old(self)@.victory_spec(),
            effects_view(effects@) == old(self)@.victory_effects(),
    {
        self.character.xp = self.character.xp + 100;
        self.character.bosses_defeated = self.character.bosses_defeated + 1;
        let gold_earned: u32 = match &self.current_boss {
            Some(boss) => if boss.max_hp <= 0 {
                0
            } else {
                ((boss.max_hp / 100) as u32) * 5
            },
            None => 50,
        };
        self.character.gold = self.character.gold + gold_earned;
        if self.character.xp >= self.character.level * 100 {
            self.character.level = self.character.level + 1;
            self.character.hp = self.character.max_hp;
            self.log("LEVEL UP! HP Fully Restored.".to_string());
        }
        let mut effects: Vec<Effect> = Vec::new();
        if self.config.audio_enabled {
            effects.push(Effect::Play(Sound::Victory));
        }
        match &self.current_boss {
            Some(boss) => {
                effects.push(
                    Effect::Announce {
                        url: self.config.discord_webhook_url.clone(),
                        boss_name: boss.name.clone(),
                        level: self.character.level,
                    },
                );
            },
            None => {},
        }
        self.add_item("Caffeine Elixir".to_string(), ItemType::Elixir, 0);
        let mut msg = "Target eliminated. Found ".to_string();
        push_decimal(&mut msg, gold_earned as u64);
        msg.append(" Gold and an Elixir.");
        self.log(msg);
        effects.push(Effect::Notify(Notice::Victory));
        assert(effects_view(effects@) =~= old(self)@.victory_effects());
        effects
    }

    /// A focus pulse (a key was pressed) worth `base_damage` tenths of damage.
    pub fn register_focus(&mut self, base_damage: u32) -> (effects: Vec<Effect>)
        requires
            old(self)@.register_focus_fits(base_damage),
        ensures
            final(self)@ == old(self)@.register_focus_spec(base_damage),
            effects_view(effects@) == old(self)@.register_focus_effects(base_damage),
            old(self)@.hp_bounded() ==> final(self)@.hp_bounded(),
    {
        let mut effects: Vec<Effect> = Vec::new();
        self.character.focus_pulses = self.character.focus_pulses + 1;
        self.distraction_timer = 0;
        if self.status != GameStatus::Battling {
            assert(effects_view(effects@) =~= old(self)@.register_focus_effects(base_damage));
            return effects;
        }
        if self.pomodoro_break {
            self.log(
                "SHIELD OF REST is active! Your attacks bounce off. Go drink water!".to_string(),
            );
            assert(effects_view(effects@) =~= old(self)@.register_focus_effects(base_damage));
            return effects;
        }
        self.focus_streak = self.focus_streak + 1;
        if self.focus_streak >= 1500 {
            self.pomodoro_break = true;
            self.break_timer = 300;
            self.log("POMODORO SHIELD ACTIVATED! 5 minute mandatory break.".to_string());
            effects.push(Effect::Notify(Notice::MandatoryBreak));
            assert(effects_view(effects@) =~= old(self)@.register_focus_effects(base_damage));
            return effects;
        }
        if self.config.audio_enabled {
            effects.push(Effect::Play(Sound::Hit));
        }
        let ghost hit = effects@;
        let bonus: u128 = power_sum(&self.character.inventory, ItemType::Weapon);
        let damage: u128 = base_damage as u128 + bonus;
        let defeated = match &mut self.current_boss {
            Some(boss) => {
                let hp: i128 = boss.hp as i128 - damage as i128;
                boss.hp = hp as i64;
                boss.hp <= 0
            },
            None => false,
        };
        if defeated {
            self.status = GameStatus::Victorious;
            let mut more = self.process_victory();
            let ghost extra = more@;
            effects.append(&mut more);
            assert(effects_view(effects@) =~= effects_view(hit) + effects_view(extra));
        }
        assert(effects_view(effects@) =~= old(self)@.register_focus_effects(base_damage));
        effects
    }


    /// Carries out an event of the watcher.
    pub fn handle_event(&mut self, event: Event) -> (effects: Vec<Effect>)
        requires
            old(self)@.handle_event_fits(event),
        ensures
            final(self)@ == old(self)@.handle_event_spec(event),
            effects_view(effects@) == old(self)@.handle_event_effects(event),
            old(self)@.hp_bounded() ==> final(self)@.hp_bounded(),
    {
        match event {
            Event::DistractionDetected => {
                if self.status == GameStatus::Battling {
                    self.track_distraction()
                } else {
                    let effects: Vec<Effect> = Vec::new();
                    assert(effects_view(effects@) =~= Seq::<EffectView>::empty());
                    effects
                }
            },
            Event::FocusPulse => self.register_focus(5),
            Event::Tick => {
                let effects: Vec<Effect> = Vec::new();
                assert(effects_view(effects@) =~= Seq::<EffectView>::empty());
                effects
            },
        }
    }

    /// Carries out a key press; returns whether the key quits the game.
    pub fn apply_key(&mut self, key: char) -> (quit: bool)
        requires
            key == 'u' ==> old(self)@.use_elixir_fits(),
        ensures
            quit == (key == 'q'),
            final(self)@ == old(self)@.key_spec(key),
            old(self)@.hp_bounded() ==> final(self)@.hp_bounded(),
    {
        if key == 'q' {
            return true;
        }
        if key == 'u' {
            self.use_elixir();
        } else if key == 's' {
            self.toggle_dashboard();
        } else if key == 'n' && (self.status == GameStatus::Resting || self.status
            == GameStatus::Dashboard) {
            self.start_boss("Next Challenge", 15);
        }
        false
    }

    /// Whether a focus pulse of `base_damage` tenths keeps every counter in range.
    pub fn register_focus_fits(&self, base_damage: u32) -> (r: bool)
        ensures
            r == self@.register_focus_fits(base_damage),
    {
        if self.character.focus_pulses == u32::MAX {
            return false;
        }
        if self.status != GameStatus::Battling || self.pomodoro_break {
            return true;
        }
        if self.focus_streak == u32::MAX {
            return false;
        }
        if self.focus_streak + 1 >= 1500 {
            return true;
        }
        match &self.current_boss {
            None => true,
            Some(boss) => {
                let bonus: u128 = power_sum(&self.character.inventory, ItemType::Weapon);
                let damage: u128 = base_damage as u128 + bonus;
                let hp: i128 = boss.hp as i128 - damage as i128;
                if hp < i64::MIN as i128 {
                    return false;
                }
                if hp > 0 {
                    return true;
                }
                let c = &self.character;
                let gold: u64 = if boss.max_hp <= 0 {
                    0
                } else {
                    (boss.max_hp as u64 / 100) * 5
                };
                c.xp <= u32::MAX - 100 && c.bosses_defeated < u32::MAX && c.level <= u32::MAX / 100
                    && gold <= u32::MAX as u64 && c.gold as u64 + gold <= u32::MAX as u64
            },
        }
    }

    /// Whether a second of distraction keeps every counter in range.
    pub fn track_distraction_fits(&self) -> (r: bool)
        ensures
            r == self@.track_distraction_fits(),
    {
        self.pomodoro_break || (self.distraction_timer < u32::MAX
            && self.config.grace_period_seconds < u32::MAX)
    }

    /// Whether drinking an elixir keeps the hit points in range.
    pub fn use_elixir_fits(&self) -> (r: bool)
        ensures
            r == self@.use_elixir_fits(),
    {
        match find_first(&self.character.inventory, ItemType::Elixir) {
            Some(_) => self.character.hp <= u32::MAX - self.config.base_heal_amount,
            None => true,
        }
    }

    /// Whether a purchase keeps the hit points in range.
    pub fn buy_item_fits(&self, item_id: u8) -> (r: bool)
        ensures
            r == self@.buy_item_fits(item_id),
    {
        !(item_id == 1 && self.character.gold >= 100) || (self.character.max_hp <= u32::MAX - 50
            && self.character.hp <= u32::MAX - 50)
    }

    /// Whether an event of the watcher keeps every counter in range.
    pub fn handle_event_fits(&self, event: Event) -> (r: bool)
        ensures
            r == self@.handle_event_fits(event),
    {
        match event {
            Event::DistractionDetected => self.status != GameStatus::Battling
                || self.track_distraction_fits(),
            Event::FocusPulse => self.register_focus_fits(5),
            Event::Tick => true,
        }
    }
}

proof fn lemma_first_of_is(items: Seq<ItemView>, kind: ItemType, i: int)
    requires
        is_first_of(items, kind, i),
    ensures
        first_of(items, kind) == i,
{
    let c: int = first_of(items, kind);
    assert(is_first_of(items, kind, c));
    if c < i {
        assert(items[c].item_type != kind);
    } else if c > i {
        assert(items[i].item_type != kind);
    }
}

/// The position of the first item of this kind, if any.
fn find_first(items: &Vec<Item>, kind: ItemType) -> (r: Option<usize>)
    ensures
        match r {
            Some(i) => is_first_of(items_view(items@), kind, i as int),
            None => !has_kind(items_view(items@), kind),
        },
{
    let ghost all = items_view(items@);
    let mut i: usize = 0;
    while i < items.len()
        invariant
            i <= items.len(),
            all == items_view(items@),
            forall|j: int| 0 <= j < i ==> #[trigger] all[j].item_type != kind,
        decreases items.len() - i,
    {
        if items[i].item_type == kind {
            return Some(i);
        }
        i = i + 1;
    }
    None
}

} // verus!
