use terminal_quest::app::{App, Effect, Notice, Sound};
use terminal_quest::models::{AppConfig, Boss, GameStatus, Item, ItemType};
use terminal_quest::watcher::Event;

fn quiet_config() -> AppConfig {
    let mut c = AppConfig::default();
    c.audio_enabled = false;
    c
}

fn item(name: &str, kind: ItemType, power: u32) -> Item {
    Item { name: name.to_string(), item_type: kind, power }
}

fn is_notice(e: &Effect, n: Notice) -> bool {
    matches!(e, Effect::Notify(m) if *m == n)
}

#[test]
fn default_config_values() {
    let c = AppConfig::default();
    assert_eq!(c.blacklist, vec!["chrome".to_string(), "discord".to_string(), "spotify".to_string()]);
    assert_eq!(c.grace_period_seconds, 10);
    assert_eq!(c.base_heal_amount, 30);
    assert!(c.audio_enabled);
    assert_eq!(c.discord_webhook_url, "");
}

#[test]
fn new_game_starts_at_camp() {
    let app = App::new(AppConfig::default());
    assert_eq!(app.character.hp, 100);
    assert_eq!(app.character.max_hp, 100);
    assert_eq!(app.character.level, 1);
    assert_eq!(app.character.gold, 0);
    assert_eq!(app.character.xp, 0);
    assert!(app.character.inventory.is_empty());
    assert_eq!(app.status, GameStatus::Resting);
    assert_eq!(app.logs, vec!["System Initialized.".to_string()]);
    assert!(app.current_boss.is_none());
    assert!(!app.pomodoro_break);
}

#[test]
fn saved_hero_comes_back_at_rest() {
    let mut app = App::new(AppConfig::default());
    app.character.gold = 321;
    app.character.level = 4;
    let character = app.character;
    let back = App::from_saved(character, quiet_config());
    assert_eq!(back.character.gold, 321);
    assert_eq!(back.character.level, 4);
    assert_eq!(back.status, GameStatus::Resting);
    assert!(back.logs.is_empty());
    assert!(!back.config.audio_enabled);
}

#[test]
fn menus_are_locked_in_battle() {
    let mut app = App::new(quiet_config());
    app.set_status(GameStatus::Merchant);
    assert_eq!(app.status, GameStatus::Merchant);
    app.start_boss("Refactor", 20);
    app.set_status(GameStatus::Merchant);
    assert_eq!(app.status, GameStatus::Battling);
    app.toggle_dashboard();
    assert_eq!(app.status, GameStatus::Battling);
    app.set_status(GameStatus::Battling);
    assert_eq!(app.status, GameStatus::Battling);
}

#[test]
fn dashboard_toggles() {
    let mut app = App::new(quiet_config());
    app.toggle_dashboard();
    assert_eq!(app.status, GameStatus::Dashboard);
    app.toggle_dashboard();
    assert_eq!(app.status, GameStatus::Resting);
}

#[test]
fn start_boss_builds_the_boss() {
    let mut app = App::new(quiet_config());
    app.focus_streak = 7;
    app.start_boss("Write docs", 20);
    let b = app.current_boss.as_ref().unwrap();
    assert_eq!(b.name, "Write docs");
    assert_eq!(b.hp, 2000);
    assert_eq!(b.max_hp, 2000);
    assert_eq!(b.monster_type, 2);
    assert_eq!(app.status, GameStatus::Battling);
    assert_eq!(app.focus_streak, 0);
    assert_eq!(app.logs.last().unwrap(), "Engaging: Write docs");
}

#[test]
fn boss_new_ten_points_a_minute() {
    let b = Boss::new("x".to_string(), 7);
    assert_eq!(b.hp, 700);
    assert_eq!(b.max_hp, 700);
    assert_eq!(b.monster_type, 1);
}

#[test]
fn focus_outside_battle_only_counts() {
    let mut app = App::new(AppConfig::default());
    app.distraction_timer = 4;
    let effects = app.register_focus(5);
    assert!(effects.is_empty());
    assert_eq!(app.character.focus_pulses, 1);
    assert_eq!(app.distraction_timer, 0);
    assert_eq!(app.focus_streak, 0);
}

#[test]
fn focus_hits_the_boss() {
    let mut app = App::new(AppConfig::default());
    app.start_boss("Bug", 20);
    let effects = app.register_focus(5);
    assert_eq!(effects.len(), 1);
    assert!(matches!(effects[0], Effect::Play(Sound::Hit)));
    assert_eq!(app.current_boss.as_ref().unwrap().hp, 1995);
    assert_eq!(app.focus_streak, 1);
}

#[test]
fn weapons_add_damage() {
    let mut app = App::new(quiet_config());
    app.character.inventory.push(item("Mechanical Switches", ItemType::Weapon, 5));
    app.character.inventory.push(item("Siren's Mute", ItemType::Shield, 2));
    app.character.inventory.push(item("Mechanical Switches", ItemType::Weapon, 5));
    app.start_boss("Bug", 20);
    let effects = app.register_focus(5);
    assert!(effects.is_empty());
    assert_eq!(app.current_boss.as_ref().unwrap().hp, 1985);
}

#[test]
fn victory_rewards_the_hero() {
    let mut app = App::new(AppConfig::default());
    app.config.discord_webhook_url = "https://example.invalid/hook".to_string();
    app.start_boss("Tiny", 1);
    for _ in 0..19 {
        let e = app.register_focus(5);
        assert_eq!(e.len(), 1);
    }
    assert_eq!(app.current_boss.as_ref().unwrap().hp, 5);
    let effects = app.register_focus(5);
    assert_eq!(app.status, GameStatus::Victorious);
    assert_eq!(app.current_boss.as_ref().unwrap().hp, 0);
    assert_eq!(app.character.xp, 100);
    assert_eq!(app.character.bosses_defeated, 1);
    assert_eq!(app.character.gold, 5);
    assert_eq!(app.character.level, 2);
    assert_eq!(app.character.hp, 100);
    let last = app.character.inventory.last().unwrap();
    assert_eq!(last.name, "Caffeine Elixir");
    assert_eq!(last.item_type, ItemType::Elixir);
    assert_eq!(last.power, 0);
    let n = app.logs.len();
    assert_eq!(app.logs[n - 2], "LEVEL UP! HP Fully Restored.");
    assert_eq!(app.logs[n - 1], "Target eliminated. Found 5 Gold and an Elixir.");
    assert_eq!(effects.len(), 4);
    assert!(matches!(effects[0], Effect::Play(Sound::Hit)));
    assert!(matches!(effects[1], Effect::Play(Sound::Victory)));
    match &effects[2] {
        Effect::Announce { url, boss_name, level } => {
            assert_eq!(url, "https://example.invalid/hook");
            assert_eq!(boss_name, "Tiny");
            assert_eq!(*level, 2);
        }
        _ => panic!("expected the announcement"),
    }
    assert!(is_notice(&effects[3], Notice::Victory));
}

#[test]
fn victory_without_level_up() {
    let mut app = App::new(quiet_config());
    app.character.level = 3;
    app.character.xp = 50;
    app.character.hp = 40;
    app.start_boss("Big", 40);
    app.current_boss.as_mut().unwrap().hp = 3;
    let effects = app.register_focus(5);
    assert_eq!(app.character.xp, 150);
    assert_eq!(app.character.level, 3);
    assert_eq!(app.character.hp, 40);
    assert_eq!(app.character.gold, 200);
    assert_eq!(app.logs.last().unwrap(), "Target eliminated. Found 200 Gold and an Elixir.");
    assert_eq!(effects.len(), 2);
    assert!(is_notice(&effects[1], Notice::Victory));
}

#[test]
fn streak_earns_mandatory_break() {
    let mut app = App::new(quiet_config());
    app.start_boss("Long", 600);
    app.focus_streak = 1498;
    let e = app.register_focus(5);
    assert!(e.is_empty());
    assert!(!app.pomodoro_break);
    let e = app.register_focus(5);
    assert!(app.pomodoro_break);
    assert_eq!(app.break_timer, 300);
    assert_eq!(app.focus_streak, 1500);
    assert_eq!(e.len(), 1);
    assert!(is_notice(&e[0], Notice::MandatoryBreak));
    assert_eq!(app.logs.last().unwrap(), "POMODORO SHIELD ACTIVATED! 5 minute mandatory break.");
    let hp = app.current_boss.as_ref().unwrap().hp;
    let e = app.register_focus(5);
    assert!(e.is_empty());
    assert_eq!(app.current_boss.as_ref().unwrap().hp, hp);
    assert_eq!(
        app.logs.last().unwrap(),
        "SHIELD OF REST is active! Your attacks bounce off. Go drink water!"
    );
}

#[test]
fn law_streak_of_1500_pulses_earns_break() {
    let mut app = App::new(quiet_config());
    app.start_boss("Marathon", 1000);
    for k in 1..1500u32 {
        app.register_focus(5);
        assert_eq!(app.focus_streak, k);
        assert!(!app.pomodoro_break);
        assert_eq!(app.status, GameStatus::Battling);
    }
    app.register_focus(5);
    assert!(app.pomodoro_break);
    assert_eq!(app.break_timer, 300);
}

#[test]
fn law_break_lasts_its_timer() {
    let mut app = App::new(quiet_config());
    app.pomodoro_break = true;
    app.break_timer = 300;
    app.focus_streak = 1500;
    for k in 1..300u32 {
        let e = app.tick();
        assert!(e.is_empty());
        assert!(app.pomodoro_break);
        assert_eq!(app.break_timer, 300 - k);
    }
    let e = app.tick();
    assert!(!app.pomodoro_break);
    assert_eq!(app.focus_streak, 0);
    assert_eq!(app.break_timer, 0);
    assert_eq!(e.len(), 1);
    assert!(is_notice(&e[0], Notice::BreakOver));
    assert_eq!(app.logs.last().unwrap(), "Shield lowered. You may resume your quest.");
}

#[test]
fn tick_without_break_does_nothing() {
    let mut app = App::new(quiet_config());
    app.break_timer = 9;
    let e = app.tick();
    assert!(e.is_empty());
    assert_eq!(app.break_timer, 9);
    assert_eq!(app.logs.len(), 1);
}

#[test]
fn tick_with_zero_timer_ends_break() {
    let mut app = App::new(quiet_config());
    app.pomodoro_break = true;
    app.break_timer = 0;
    let e = app.tick();
    assert!(!app.pomodoro_break);
    assert_eq!(e.len(), 1);
}

#[test]
fn buy_switches() {
    let mut app = App::new(quiet_config());
    app.character.gold = 200;
    app.buy_item(2);
    assert_eq!(app.character.gold, 50);
    let it = app.character.inventory.last().unwrap();
    assert_eq!(it.name, "Mechanical Switches");
    assert_eq!(it.item_type, ItemType::Weapon);
    assert_eq!(it.power, 5);
    assert_eq!(app.logs.last().unwrap(), "Bought Mechanical Switches: Damage +0.5");
}

#[test]
fn buy_armor_and_mute() {
    let mut app = App::new(quiet_config());
    app.character.gold = 175;
    app.character.hp = 60;
    app.buy_item(1);
    assert_eq!(app.character.gold, 75);
    assert_eq!(app.character.max_hp, 150);
    assert_eq!(app.character.hp, 110);
    assert_eq!(app.logs.last().unwrap(), "Bought Heavy Armor: Max HP +50");
    app.buy_item(3);
    assert_eq!(app.character.gold, 0);
    let it = app.character.inventory.last().unwrap();
    assert_eq!(it.name, "Siren's Mute");
    assert_eq!(it.item_type, ItemType::Shield);
    assert_eq!(it.power, 2);
    assert_eq!(app.logs.last().unwrap(), "Bought Siren's Mute: Distraction Damage -20%");
}

#[test]
fn law_purchase_needs_the_price() {
    let mut app = App::new(quiet_config());
    app.character.gold = 149;
    app.buy_item(2);
    assert_eq!(app.character.gold, 149);
    assert!(app.character.inventory.is_empty());
    assert_eq!(app.logs.last().unwrap(), "Not enough Gold or invalid item.");
    app.buy_item(0);
    app.buy_item(4);
    assert_eq!(app.character.gold, 149);
    assert_eq!(app.logs.len(), 4);
    app.buy_item(1);
    assert_eq!(app.character.gold, 49);
}

#[test]
fn trap_without_shields() {
    let mut app = App::new(AppConfig::default());
    let e = app.take_damage(2);
    assert_eq!(app.character.hp, 98);
    assert_eq!(e.len(), 1);
    assert!(matches!(e[0], Effect::Play(Sound::Damage)));
}

#[test]
fn shields_soften_traps() {
    let mut app = App::new(quiet_config());
    app.character.inventory.push(item("Siren's Mute", ItemType::Shield, 2));
    app.take_damage(10);
    assert_eq!(app.character.hp, 92);
    app.take_damage(2);
    assert_eq!(app.character.hp, 91);
    for _ in 0..4 {
        app.character.inventory.push(item("Siren's Mute", ItemType::Shield, 2));
    }
    app.take_damage(50);
    assert_eq!(app.character.hp, 90);
}

#[test]
fn hero_falls_at_zero() {
    let mut app = App::new(quiet_config());
    app.character.hp = 3;
    let e = app.take_damage(5);
    assert_eq!(app.character.hp, 0);
    assert_eq!(app.status, GameStatus::Defeated);
    assert_eq!(e.len(), 1);
    assert!(is_notice(&e[0], Notice::QuestFailed));
}

#[test]
fn law_break_immunity() {
    let mut app = App::new(quiet_config());
    app.pomodoro_break = true;
    app.distraction_timer = 50;
    let e = app.take_damage(40);
    assert!(e.is_empty());
    let e2 = app.track_distraction();
    assert!(e2.is_empty());
    assert_eq!(app.character.hp, 100);
    assert_eq!(app.distraction_timer, 50);
}

#[test]
fn distraction_grace_then_trap() {
    let mut app = App::new(quiet_config());
    app.start_boss("Bug", 20);
    app.focus_streak = 9;
    for _ in 0..10 {
        let e = app.track_distraction();
        assert!(e.is_empty());
    }
    assert_eq!(app.focus_streak, 0);
    assert_eq!(app.character.hp, 100);
    let e = app.track_distraction();
    assert_eq!(app.distraction_timer, 11);
    assert_eq!(app.character.hp, 98);
    assert_eq!(e.len(), 1);
    assert!(is_notice(&e[0], Notice::TrapSprung));
    let e = app.track_distraction();
    assert!(e.is_empty());
    assert_eq!(app.character.hp, 96);
}

#[test]
fn elixir_heals_up_to_max() {
    let mut app = App::new(quiet_config());
    app.character.hp = 50;
    app.use_elixir();
    assert_eq!(app.character.hp, 50);
    assert_eq!(app.logs.len(), 1);
    app.character.inventory.push(item("Siren's Mute", ItemType::Shield, 2));
    app.character.inventory.push(item("Caffeine Elixir", ItemType::Elixir, 0));
    app.character.inventory.push(item("Caffeine Elixir", ItemType::Elixir, 0));
    app.use_elixir();
    assert_eq!(app.character.hp, 80);
    assert_eq!(app.character.inventory.len(), 2);
    assert_eq!(app.character.inventory[0].item_type, ItemType::Shield);
    assert_eq!(app.character.inventory[1].item_type, ItemType::Elixir);
    assert_eq!(app.logs.last().unwrap(), "Healed 30 HP.");
    app.character.hp = 90;
    app.use_elixir();
    assert_eq!(app.character.hp, 100);
    assert_eq!(app.character.inventory.len(), 1);
}

#[test]
fn law_hp_stays_within_max() {
    let mut app = App::new(quiet_config());
    app.character.gold = 1000;
    app.buy_item(1);
    assert!(app.character.hp <= app.character.max_hp);
    app.character.inventory.push(item("Caffeine Elixir", ItemType::Elixir, 0));
    app.use_elixir();
    assert!(app.character.hp <= app.character.max_hp);
    app.take_damage(500);
    assert!(app.character.hp <= app.character.max_hp);
    app.start_boss("Quick", 1);
    for _ in 0..20 {
        app.register_focus(5);
    }
    assert_eq!(app.status, GameStatus::Victorious);
    assert!(app.character.hp <= app.character.max_hp);
}

#[test]
fn events_drive_the_game() {
    let mut app = App::new(quiet_config());
    let e = app.handle_event(Event::DistractionDetected);
    assert!(e.is_empty());
    assert_eq!(app.distraction_timer, 0);
    app.start_boss("Bug", 20);
    app.handle_event(Event::DistractionDetected);
    assert_eq!(app.distraction_timer, 1);
    app.handle_event(Event::FocusPulse);
    assert_eq!(app.distraction_timer, 0);
    assert_eq!(app.current_boss.as_ref().unwrap().hp, 1995);
    let e = app.handle_event(Event::Tick);
    assert!(e.is_empty());
}

#[test]
fn keys_drive_the_game() {
    let mut app = App::new(quiet_config());
    assert!(!app.apply_key('s'));
    assert_eq!(app.status, GameStatus::Dashboard);
    assert!(!app.apply_key('n'));
    assert_eq!(app.status, GameStatus::Battling);
    let b = app.current_boss.as_ref().unwrap();
    assert_eq!(b.name, "Next Challenge");
    assert_eq!(b.hp, 1500);
    app.current_boss.as_mut().unwrap().name = "Kept".to_string();
    assert!(!app.apply_key('n'));
    assert_eq!(app.current_boss.as_ref().unwrap().name, "Kept");
    app.character.hp = 10;
    app.character.inventory.push(item("Caffeine Elixir", ItemType::Elixir, 0));
    assert!(!app.apply_key('u'));
    assert_eq!(app.character.hp, 40);
    assert!(!app.apply_key('x'));
    assert!(app.apply_key('q'));
}

#[test]
fn notice_texts() {
    assert_eq!(Notice::MandatoryBreak.summary(), "MANDATORY BREAK");
    assert_eq!(Notice::MandatoryBreak.body(), "Step away from the keyboard!");
    assert_eq!(Notice::Victory.summary(), "VICTORY");
    assert_eq!(Notice::Victory.body(), "Boss defeated!");
    assert_eq!(Notice::QuestFailed.summary(), "QUEST FAILED");
    assert_eq!(Notice::QuestFailed.body(), "You were overwhelmed.");
    assert_eq!(Notice::TrapSprung.summary(), "TRAP SPRUNG");
    assert_eq!(Notice::TrapSprung.body(), "Return to terminal!");
    assert_eq!(Notice::BreakOver.summary(), "BREAK OVER");
    assert_eq!(Notice::BreakOver.body(), "Time to get back to work!");
}

#[test]
fn law_steps_keep_config_and_log() {
    let mut app = App::new(quiet_config());
    app.character.gold = 500;
    let mut seen: Vec<String> = app.logs.clone();
    app.set_status(GameStatus::Merchant);
    app.buy_item(2);
    app.buy_item(7);
    app.start_boss("Quick", 1);
    for _ in 0..12 {
        app.register_focus(5);
    }
    app.track_distraction();
    app.take_damage(3);
    app.tick();
    app.use_elixir();
    assert_eq!(app.config.blacklist, quiet_config().blacklist);
    assert_eq!(app.config.grace_period_seconds, 10);
    assert_eq!(app.config.base_heal_amount, 30);
    assert!(!app.config.audio_enabled);
    assert!(app.logs.len() >= seen.len());
    assert_eq!(&app.logs[..seen.len()], &seen[..]);
    seen = app.logs.clone();
    app.tick();
    assert_eq!(&app.logs[..seen.len()], &seen[..]);
}

#[test]
fn overshooting_blow_leaves_boss_below_zero() {
    let mut app = App::new(quiet_config());
    app.start_boss("Small", 1);
    app.current_boss.as_mut().unwrap().hp = 3;
    app.register_focus(5);
    assert_eq!(app.current_boss.as_ref().unwrap().hp, -2);
    assert_eq!(app.status, GameStatus::Victorious);
}

#[test]
fn game_status_default_and_clones() {
    assert_eq!(GameStatus::default(), GameStatus::Resting);
    let c = AppConfig::default().clone();
    assert_eq!(c.grace_period_seconds, 10);
    let b = Boss::new("B".to_string(), 2).clone();
    assert_eq!(b.hp, 200);
    let i = item("x", ItemType::Weapon, 5).clone();
    assert_eq!(i.power, 5);
}

#[test]
fn law_break_stays_consistent() {
    let mut app = App::new(quiet_config());
    app.start_boss("Long", 1000);
    for _ in 0..1600 {
        app.register_focus(5);
        assert_eq!(app.pomodoro_break, app.break_timer > 0);
        assert!(app.focus_streak <= 1500);
        assert!(app.pomodoro_break || app.focus_streak < 1500);
    }
    for _ in 0..300 {
        app.tick();
        app.track_distraction();
        assert_eq!(app.pomodoro_break, app.break_timer > 0);
        assert!(app.pomodoro_break || app.focus_streak < 1500);
    }
    assert!(!app.pomodoro_break);
}

#[test]
fn law_progress_follows_bosses() {
    let mut app = App::new(quiet_config());
    for round in 1..=3u32 {
        app.start_boss("Quick", 1);
        for _ in 0..20 {
            app.register_focus(5);
        }
        assert_eq!(app.character.bosses_defeated, round);
        assert_eq!(app.character.xp, 100 * round);
        assert_eq!(app.character.level, round + 1);
    }
}

#[test]
fn law_gold_five_per_minute() {
    for minutes in [0u32, 1, 7, 40] {
        let mut app = App::new(quiet_config());
        app.character.gold = 11;
        app.start_boss("Task", minutes);
        app.current_boss.as_mut().unwrap().hp = 1;
        app.register_focus(5);
        assert_eq!(app.character.gold, 11 + 5 * minutes);
        assert_eq!(
            app.logs.last().unwrap(),
            &format!("Target eliminated. Found {} Gold and an Elixir.", 5 * minutes)
        );
    }
}

#[test]
fn law_distraction_costs_after_grace() {
    let mut app = App::new(quiet_config());
    app.config.grace_period_seconds = 4;
    for k in 1..=20u32 {
        app.track_distraction();
        assert_eq!(app.distraction_timer, k);
        let lost = if k > 4 { 2 * (k - 4) } else { 0 };
        assert_eq!(app.character.hp, 100 - lost);
    }
}
