//! The game's data: the hero, the items of the armory, the bosses and the settings.
//!
//! Quantities that the game measures in fractions (a boss's hit points, the
//! power of an item, the damage of a focus pulse) are kept as whole numbers of
//! tenths: a boss of 20 minutes has 200.0 hit points, stored as 2000, and the
//! Mechanical Switches add 0.5 damage, stored as 5.
use vstd::prelude::*;

verus! {

/// What an item of the armory does.
#[derive(Clone, Copy, Debug, PartialEq, Eq, Structural)]
pub enum ItemType {
    Shield,
    Weapon,
    Elixir,
}

/// Which screen the game is on.
#[derive(Clone, Copy, Debug, PartialEq, Eq, Structural)]
pub enum GameStatus {
    Resting,
    Dashboard,
    Merchant,
    Battling,
    Victorious,
    Defeated,
}

/// An item of the hero's inventory; `power` is in tenths.
#[derive(Clone)]
pub struct Item {
    pub name: String,
    pub item_type: ItemType,
    pub power: u32,
}

#[verifier::ext_equal]
pub struct ItemView {
    pub name: Seq<char>,
    pub item_type: ItemType,
    pub power: u32,
}

impl Default for GameStatus {
    /// A game starts at the camp.
    fn default() -> (s: GameStatus)
        ensures
            s == GameStatus::Resting,
    {
        GameStatus::Resting
    }
}

impl View for Item {
    type V = ItemView;

    open spec fn view(&self) -> ItemView {
        ItemView { name: self.name@, item_type: self.item_type, power: self.power }
    }
}

/// The hero.
pub struct Character {
    pub hp: u32,
    pub max_hp: u32,
    pub xp: u32,
    pub level: u32,
    pub gold: u32,
    pub inventory: Vec<Item>,
    pub bosses_defeated: u32,
    pub focus_pulses: u32,
    /// Minutes of focus per day, as shown on the dashboard.
    pub focus_history: Vec<(String, u64)>,
}

#[verifier::ext_equal]
pub struct CharacterView {
    pub hp: u32,
    pub max_hp: u32,
    pub xp: u32,
    pub level: u32,
    pub gold: u32,
    pub inventory: Seq<ItemView>,
    pub bosses_defeated: u32,
    pub focus_pulses: u32,
    pub focus_history: Seq<(Seq<char>, u64)>,
}

pub open spec fn items_view(items: Seq<Item>) -> Seq<ItemView> {
    items.map_values(|i: Item| i@)
}

pub open spec fn history_view(h: Seq<(String, u64)>) -> Seq<(Seq<char>, u64)> {
    h.map_values(|e: (String, u64)| (e.0@, e.1))
}

impl View for Character {
    type V = CharacterView;

    open spec fn view(&self) -> CharacterView {
        CharacterView {
            hp: self.hp,
            max_hp: self.max_hp,
            xp: self.xp,
            level: self.level,
            gold: self.gold,
            inventory: items_view(self.inventory@),
            bosses_defeated: self.bosses_defeated,
            focus_pulses: self.focus_pulses,
            focus_history: history_view(self.focus_history@),
        }
    }
}

/// A task to beat; `hp` and `max_hp` are in tenths, `monster_type` picks its
/// picture. A blow may leave `hp` below zero.
#[derive(Clone)]
pub struct Boss {
    pub name: String,
    pub hp: i64,
    pub max_hp: i64,
    pub monster_type: usize,
}

#[verifier::ext_equal]
pub struct BossView {
    pub name: Seq<char>,
    pub hp: i64,
    pub max_hp: i64,
    pub monster_type: usize,
}

impl View for Boss {
    type V = BossView;

    open spec fn view(&self) -> BossView {
        BossView {
            name: self.name@,
            hp: self.hp,
            max_hp: self.max_hp,
            monster_type: self.monster_type,
        }
    }
}

/// The boss that a task of `minutes` minutes becomes: ten hit points a minute,
/// full health, and one of three pictures.
pub open spec fn boss_for(name: Seq<char>, minutes: u32) -> BossView {
    BossView {
        name: name,
        hp: (minutes * 100) as i64,
        max_hp: (minutes * 100) as i64,
        monster_type: (minutes % 3) as usize,
    }
}

impl Boss {
    /// A fresh boss for a task of `minutes` minutes.
    pub fn new(name: String, minutes: u32) -> (b: Boss)
        ensures
            b@ == boss_for(name@, minutes),
    {
        let hp: i64 = minutes as i64 * 100;
        Boss { name, hp, max_hp: hp, monster_type: (minutes % 3) as usize }
    }
}

/// The player's settings.
#[derive(Clone)]
pub struct AppConfig {
    pub blacklist: Vec<String>,
    pub grace_period_seconds: u32,
    pub base_heal_amount: u32,
    pub audio_enabled: bool,
    pub discord_webhook_url: String,
}

#[verifier::ext_equal]
pub struct ConfigView {
    pub blacklist: Seq<Seq<char>>,
    pub grace_period_seconds: u32,
    pub base_heal_amount: u32,
    pub audio_enabled: bool,
    pub discord_webhook_url: Seq<char>,
}

pub open spec fn strings_view(s: Seq<String>) -> Seq<Seq<char>> {
    s.map_values(|x: String| x@)
}

impl View for AppConfig {
    type V = ConfigView;

    open spec fn view(&self) -> ConfigView {
        ConfigView {
            blacklist: strings_view(self.blacklist@),
            grace_period_seconds: self.grace_period_seconds,
            base_heal_amount: self.base_heal_amount,
            audio_enabled: self.audio_enabled,
            discord_webhook_url: self.discord_webhook_url@,
        }
    }
}

/// The settings a player starts with.
pub open spec fn default_config() -> ConfigView {
    ConfigView {
        blacklist: seq!["chrome"@, "discord"@, "spotify"@],
        grace_period_seconds: 10,
        base_heal_amount: 30,
        audio_enabled: true,
        discord_webhook_url: Seq::empty(),
    }
}

impl Default for AppConfig {
    fn default() -> (c: AppConfig)
        ensures
            c@ == default_config(),
    {
        let mut blacklist: Vec<String> = Vec::new();
        blacklist.push("chrome".to_string());
        blacklist.push("discord".to_string());
        blacklist.push("spotify".to_string());
        let c = AppConfig {
            blacklist,
            grace_period_seconds: 10,
            base_heal_amount: 30,
            audio_enabled: true,
            discord_webhook_url: String::new(),
        };
        assert(c@.blacklist =~= default_config().blacklist);
        c
    }
}

} // verus!
