use terminal_quest::app::App;
use terminal_quest::models::{AppConfig, Boss};
use terminal_quest::text::push_decimal;
use terminal_quest::ui::{
    battle_alert, battle_text, camp_text, dashboard_stats, header_title, header_tone, join_strings,
    monster_art, recent_logs, shop_text, Tone,
};
use terminal_quest::watcher::{contains, is_blacklisted, is_distracting, scan, Event};
use terminal_quest::webhook::victory_post;

fn strings(v: &[&str]) -> Vec<String> {
    v.iter().map(|s| s.to_string()).collect()
}

#[test]
fn decimal_numbers() {
    let mut s = String::from("n=");
    push_decimal(&mut s, 0);
    assert_eq!(s, "n=0");
    let mut s = String::new();
    push_decimal(&mut s, 18446744073709551615);
    assert_eq!(s, "18446744073709551615");
    let mut s = String::new();
    push_decimal(&mut s, 1050);
    assert_eq!(s, "1050");
}

#[test]
fn substring_search() {
    assert!(contains("google-chrome", "chrome"));
    assert!(contains("chrome", "chrome"));
    assert!(contains("abc", ""));
    assert!(!contains("chrom", "chrome"));
    assert!(!contains("", "a"));
    assert!(contains("aab", "ab"));
}

#[test]
fn blacklist_matches_inside_names() {
    let bl = strings(&["chrome", "discord"]);
    assert!(is_blacklisted("google-chrome-stable", &bl));
    assert!(is_blacklisted("discord", &bl));
    assert!(!is_blacklisted("code", &bl));
    assert!(!is_blacklisted("code", &Vec::new()));
}

#[test]
fn process_names_are_lowered() {
    let bl = strings(&["chrome", "spotify"]);
    assert!(is_distracting(&strings(&["bash", "Google CHROME"]), &bl));
    assert!(is_distracting(&strings(&["SPOTIFY.EXE"]), &bl));
    assert!(!is_distracting(&strings(&["vim", "cargo"]), &bl));
    assert!(!is_distracting(&Vec::new(), &bl));
}

#[test]
fn scan_reports_events_in_order() {
    let bl = strings(&["discord"]);
    assert_eq!(
        scan(&strings(&["Discord"]), true, &bl),
        vec![Event::DistractionDetected, Event::FocusPulse, Event::Tick]
    );
    assert_eq!(scan(&strings(&["vim"]), false, &bl), vec![Event::Tick]);
    assert_eq!(scan(&strings(&["vim"]), true, &bl), vec![Event::FocusPulse, Event::Tick]);
}

#[test]
fn victory_message() {
    assert!(victory_post("", "Bug", 3).is_none());
    let p = victory_post("https://hooks.example/x", "Bug Swarm", 12).unwrap();
    assert_eq!(p.url, "https://hooks.example/x");
    assert_eq!(p.username, "Terminal Quest");
    assert_eq!(p.avatar_url, "https://i.imgur.com/G2x2V32.png");
    assert_eq!(
        p.content,
        "\u{2694}\u{fe0f} **A Boss has Fallen!**\nHunter (Level 12) just defeated **Bug Swarm**!"
    );
}

#[test]
fn header_and_tone() {
    let mut app = App::new(AppConfig::default());
    app.character.level = 7;
    app.character.gold = 250;
    assert_eq!(header_title(&app.character), " LVL 7 | 250 GOLD ");
    assert_eq!(header_tone(&app), Tone::Calm);
    app.distraction_timer = 11;
    assert_eq!(header_tone(&app), Tone::Alert);
    app.pomodoro_break = true;
    assert_eq!(header_tone(&app), Tone::Rest);
}

#[test]
fn monsters() {
    assert_eq!(monster_art(0), "  (o o)\n  / v \\\n /     \\");
    assert_eq!(monster_art(1), "  <O_O>\n   /|\\\n   / \\");
    assert_eq!(monster_art(2), "  [X_X]\n  --|--\n   / \\");
}

#[test]
fn battle_panel() {
    let mut app = App::new(AppConfig::default());
    assert!(battle_text(&app, 50).is_none());
    app.start_boss("Bug", 4);
    assert_eq!(
        battle_text(&app, 75).unwrap(),
        "\n  <O_O>\n   /|\\\n   / \\\n\nTARGET: Bug\nHP: 75%"
    );
    app.pomodoro_break = true;
    app.break_timer = 42;
    assert_eq!(
        battle_text(&app, 75).unwrap(),
        "\n[ SHIELD OF REST ACTIVE ]\n\nTake a break!\nShield lowers in: 42s"
    );
    assert!(!battle_alert(&app));
    app.distraction_timer = 1;
    assert!(battle_alert(&app));
}

#[test]
fn dashboard_panel() {
    let mut app = App::new(AppConfig::default());
    app.character.bosses_defeated = 3;
    app.character.focus_pulses = 130;
    app.character.xp = 300;
    assert_eq!(
        dashboard_stats(&app),
        "\nBosses Slain: 3\nEstimated Focus: 2 Minutes\nTotal XP: 300\n\nActive Traps: chrome, discord, spotify"
    );
    assert_eq!(join_strings(&Vec::new(), ", "), "");
    assert_eq!(join_strings(&strings(&["a"]), "-"), "a");
}

#[test]
fn shop_panel() {
    assert_eq!(
        shop_text(80),
        "\n\n[ THE MERCHANT ]\n\nYou have 80 Gold.\n\n[1] Heavy Armor (100g): Max HP +50\n[2] Mechanical Switches (150g): +0.5 Damage\n[3] Siren's Mute (75g): -20% Trap Damage\n\nPress 1, 2, or 3 to buy."
    );
}

#[test]
fn camp_panel() {
    assert_eq!(
        camp_text(&Vec::new()),
        "\n( ^_^) \n\nSAFE AT CAMP\n\nNo pending quests.\n\n[n] Random Quest\n[s] Stats\n[m] Merchant\n[u] Use Elixir"
    );
    let quests = vec![Boss::new("Write".to_string(), 5), Boss::new("Read".to_string(), 5)];
    assert_eq!(
        camp_text(&quests),
        "\n( ^_^) \n\nSAFE AT CAMP\n\n[ QUEST BOARD ]\nPending Tasks: 2\nUp Next: Write\n\n[n] Start Next Quest\n[s] Stats\n[m] Merchant\n[u] Use Elixir"
    );
}

#[test]
fn newest_logs_first() {
    let logs = strings(&["a", "b", "c", "d", "e", "f"]);
    assert_eq!(recent_logs(&logs), strings(&["f", "e", "d", "c"]));
    assert_eq!(recent_logs(&strings(&["x", "y"])), strings(&["y", "x"]));
    assert!(recent_logs(&Vec::new()).is_empty());
}
