//! What the screen shows: the texts of its panels and the colors they take.
//! Drawing them is left to the terminal front end.
use vstd::prelude::*;
use vstd::string::*;
use crate::app::{App, AppView};
use crate::models::{strings_view, Boss, BossView, Character, GameStatus};
use crate::parser::bosses_view;
use crate::text::{decimal, push_decimal};

verus! {

/// The color of the header gauge.
#[derive(Clone, Copy, Debug, PartialEq, Eq, Structural)]
pub enum Tone {
    /// Green: all is well.
    Calm,
    /// Red: a trap is biting.
    Alert,
    /// Cyan: on a break.
    Rest,
}

pub open spec fn header_tone_spec(v: AppView) -> Tone {
    if v.pomodoro_break {
        Tone::Rest
    } else if v.distraction_timer > v.config.grace_period_seconds {
        Tone::Alert
    } else {
        Tone::Calm
    }
}

/// The color of the header: cyan on a break, red once the grace period of a
/// distraction is over, green otherwise.
pub fn header_tone(app: &App) -> (t: Tone)
    ensures
        t == header_tone_spec(app@),
{
    if app.pomodoro_break {
        Tone::Rest
    } else if app.distraction_timer > app.config.grace_period_seconds {
        Tone::Alert
    } else {
        Tone::Calm
    }
}

/// The header's title: the hero's level and gold.
pub fn header_title(character: &Character) -> (s: String)
    ensures
        s@ == " LVL "@ + decimal(character.level as nat) + " | "@ + decimal(
            character.gold as nat,
        ) + " GOLD "@,
{
    let mut s = " LVL ".to_string();
    push_decimal(&mut s, character.level as u64);
    s.append(" | ");
    push_decimal(&mut s, character.gold as u64);
    s.append(" GOLD ");
    s
}

/// The pictures of the three kinds of monster.
pub open spec fn monster_art_spec(kind: usize) -> Seq<char> {
    if kind == 0 {
        "  (o o)\n  / v \\\n /     \\"@
    } else if kind == 1 {
        "  <O_O>\n   /|\\\n   / \\"@
    } else {
        "  [X_X]\n  --|--\n   / \\"@
    }
}

/// The picture of a monster of kind `kind` (0, 1 or 2).
pub fn monster_art(kind: usize) -> (s: String)
    requires
        kind < 3,
    ensures
        s@ == monster_art_spec(kind),
{
    if kind == 0 {
        "  (o o)\n  / v \\\n /     \\".to_string()
    } else if kind == 1 {
        "  <O_O>\n   /|\\\n   / \\".to_string()
    } else {
        "  [X_X]\n  --|--\n   / \\".to_string()
    }
}

pub open spec fn battle_text_spec(v: AppView, hp_percent: u16) -> Option<Seq<char>> {
    if v.status == GameStatus::Battling && v.current_boss is Some {
        let boss = v.current_boss->0;
        if v.pomodoro_break {
            Some(
                "\n[ SHIELD OF REST ACTIVE ]\n\nTake a break!\nShield lowers in: "@ + decimal(
                    v.break_timer as nat,
                ) + "s"@,
            )
        } else {
            Some(
                "\n"@ + monster_art_spec(boss.monster_type) + "\n\nTARGET: "@ + boss.name
                    + "\nHP: "@ + decimal(hp_percent as nat) + "%"@,
            )
        }
    } else {
        None
    }
}

/// The battle panel: the monster, its name and `hp_percent`, the share of
/// its health left; or the countdown of the break. None outside a battle.
pub fn battle_text(app: &App, hp_percent: u16) -> (r: Option<String>)
    requires
        app.current_boss matches Some(b) ==> b.monster_type < 3,
    ensures
        match r {
            Some(s) => battle_text_spec(app@, hp_percent) == Some(s@),
            None => battle_text_spec(app@, hp_percent) is None,
        },
{
    if app.status != GameStatus::Battling {
        return None;
    }
    match &app.current_boss {
        Some(boss) => {
            if app.pomodoro_break {
                let mut s = "\n[ SHIELD OF REST ACTIVE ]\n\nTake a break!\nShield lowers in: ".to_string();
                push_decimal(&mut s, app.break_timer as u64);
                s.append("s");
                Some(s)
            } else {
                let mut s = "\n".to_string();
                let art = monster_art(boss.monster_type);
                s.append(art.as_str());
                s.append("\n\nTARGET: ");
                s.append(boss.name.as_str());
                s.append("\nHP: ");
                push_decimal(&mut s, hp_percent as u64);
                s.append("%");
                Some(s)
            }
        },
        None => None,
    }
}

/// The battle panel turns red while a distraction is running.
pub fn battle_alert(app: &App) -> (r: bool)
    ensures
        r == (app.distraction_timer > 0),
{
    app.distraction_timer > 0
}

/// `items` separated by `sep`.
pub open spec fn join(items: Seq<Seq<char>>, sep: Seq<char>) -> Seq<char>
    decreases items.len(),
{
    if items.len() == 0 {
        Seq::empty()
    } else if items.len() == 1 {
        items[0]
    } else {
        join(items.drop_last(), sep) + sep + items.last()
    }
}

/// `items` separated by `sep`.
pub fn join_strings(items: &Vec<String>, sep: &str) -> (s: String)
    ensures
        s@ == join(strings_view(items@), sep@),
{
    let ghost all = strings_view(items@);
    let mut s = String::new();
    let mut i: usize = 0;
    while i < items.len()
        invariant
            i <= items.len(),
            all == strings_view(items@),
            s@ == join(all.take(i as int), sep@),
        decreases items.len() - i,
    {
        assert(all.take(i + 1).drop_last() =~= all.take(i as int));
        if i > 0 {
            s.append(sep);
        }
        s.append(items[i].as_str());
        assert(all.take(i + 1).last() == items@[i as int]@);
        proof {
            if i == 0 {
                assert(all.take(1)[0] == items@[0]@);
                assert(s@ =~= items@[0]@);
            }
        }
        i = i + 1;
    }
    assert(all.take(i as int) =~= all);
    s
}

pub open spec fn dashboard_stats_spec(v: AppView) -> Seq<char> {
    "\nBosses Slain: "@ + decimal(v.character.bosses_defeated as nat) + "\nEstimated Focus: "@
        + decimal((v.character.focus_pulses / 60) as nat) + " Minutes\nTotal XP: "@ + decimal(
        v.character.xp as nat,
    ) + "\n\nActive Traps: "@ + join(v.config.blacklist, ", "@)
}

/// The hall of records: bosses slain, minutes of focus (a pulse a second),
/// experience, and the programs that are traps.
pub fn dashboard_stats(app: &App) -> (s: String)
    ensures
        s@ == dashboard_stats_spec(app@),
{
    let mut s = "\nBosses Slain: ".to_string();
    push_decimal(&mut s, app.character.bosses_defeated as u64);
    s.append("\nEstimated Focus: ");
    push_decimal(&mut s, (app.character.focus_pulses / 60) as u64);
    s.append(" Minutes\nTotal XP: ");
    push_decimal(&mut s, app.character.xp as u64);
    s.append("\n\nActive Traps: ");
    let traps = join_strings(&app.config.blacklist, ", ");
    s.append(traps.as_str());
    s
}

pub open spec fn shop_text_spec(gold: u32) -> Seq<char> {
    "\n\n[ THE MERCHANT ]\n\nYou have "@ + decimal(gold as nat)
        + " Gold.\n\n[1] Heavy Armor (100g): Max HP +50\n[2] Mechanical Switches (150g): +0.5 Damage\n[3] Siren's Mute (75g): -20% Trap Damage\n\nPress 1, 2, or 3 to buy."@
}

/// The merchant's panel for a hero with `gold` gold.
pub fn shop_text(gold: u32) -> (s: String)
    ensures
        s@ == shop_text_spec(gold),
{
    let mut s = "\n\n[ THE MERCHANT ]\n\nYou have ".to_string();
    push_decimal(&mut s, gold as u64);
    s.append(
        " Gold.\n\n[1] Heavy Armor (100g): Max HP +50\n[2] Mechanical Switches (150g): +0.5 Damage\n[3] Siren's Mute (75g): -20% Trap Damage\n\nPress 1, 2, or 3 to buy.",
    );
    s
}

pub open spec fn camp_text_spec(quests: Seq<BossView>) -> Seq<char> {
    "\n( ^_^) \n\nSAFE AT CAMP\n\n"@ + (if quests.len() > 0 {
        "[ QUEST BOARD ]\nPending Tasks: "@ + decimal(quests.len()) + "\nUp Next: "@
            + quests[0].name + "\n\n"@ + "[n] Start Next Quest\n"@
    } else {
        "No pending quests.\n\n[n] Random Quest\n"@
    }) + "[s] Stats\n[m] Merchant\n[u] Use Elixir"@
}

/// The camp's panel, with the quest board when it holds tasks.
pub fn camp_text(quests: &Vec<Boss>) -> (s: String)
    ensures
        s@ == camp_text_spec(bosses_view(quests@)),
{
    let mut s = "\n( ^_^) \n\nSAFE AT CAMP\n\n".to_string();
    if quests.len() > 0 {
        s.append("[ QUEST BOARD ]\nPending Tasks: ");
        push_decimal(&mut s, quests.len() as u64);
        s.append("\nUp Next: ");
        s.append(quests[0].name.as_str());
        s.append("\n\n");
        s.append("[n] Start Next Quest\n");
    } else {
        s.append("No pending quests.\n\n[n] Random Quest\n");
    }
    s.append("[s] Stats\n[m] Merchant\n[u] Use Elixir");
    s
}

/// The newest `n` entries of the log, newest first.
pub open spec fn recent_spec(logs: Seq<Seq<char>>, n: nat) -> Seq<Seq<char>> {
    let k: nat = if logs.len() < n {
        logs.len()
    } else {
        n
    };
    Seq::new(k, |i: int| logs[logs.len() - 1 - i])
}

/// The last four entries of the log, newest first.
pub fn recent_logs(logs: &Vec<String>) -> (r: Vec<String>)
    ensures
        strings_view(r@) == recent_spec(strings_view(logs@), 4),
{
    let ghost all = strings_view(logs@);
    let mut r: Vec<String> = Vec::new();
    let mut i: usize = 0;
    while i < 4 && i < logs.len()
        invariant
            i <= 4,
            i <= logs.len(),
            all == strings_view(logs@),
            strings_view(r@) =~= Seq::new(i as nat, |k: int| all[all.len() - 1 - k]),
        decreases 4 - i,
    {
        let ghost before = r@;
        let entry = logs[logs.len() - 1 - i].clone();
        r.push(entry);
        assert(strings_view(r@) =~= strings_view(before).push(entry@));
        assert(Seq::new((i + 1) as nat, |k: int| all[all.len() - 1 - k]) =~= Seq::new(
            i as nat,
            |k: int| all[all.len() - 1 - k],
        ).push(all[all.len() - 1 - i]));
        i = i + 1;
    }
    r
}

} // verus!
