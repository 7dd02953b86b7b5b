//! Properties of the game that span steps, proved over the steps' own
//! specifications.
use vstd::prelude::*;
use crate::app::{
    AppView, EffectView, Notice, break_seconds, first_of, has_kind, is_first_of, new_game,
    new_character, power_of, reduced_damage, resumed_game, streak_for_break,
};
use crate::models::{
    boss_for, CharacterView, ConfigView, GameStatus, ItemType, ItemView,
};
use crate::parser::{
    digits_value, is_digit, is_open_task, is_whitespace, last_index_of, parse_line, parse_u32,
    quest_board, quests, split_lines, task_boss, trim, trim_end, trim_start, unsigned_digits,
};
use crate::text::{decimal, digit_char};
use crate::watcher::{lowercase, scan_events, Event};

verus! {

/// The state after `n` seconds.
pub open spec fn ticks(v: AppView, n: nat) -> AppView
    decreases n,
{
    if n == 0 {
        v
    } else {
        ticks(v, (n - 1) as nat).tick_spec()
    }
}

/// A mandatory break lasts exactly as many seconds as its timer shows: it
/// holds, counting down, for every earlier second, and is over at the last.
pub proof fn lemma_break_lasts(v: AppView, n: nat)
    requires
        v.pomodoro_break,
        v.break_timer == n,
        n >= 1,
    ensures
        forall|k: nat|
            k < n ==> (#[trigger] ticks(v, k)).pomodoro_break && ticks(v, k).break_timer == n - k,
        !ticks(v, n).pomodoro_break,
        ticks(v, n).focus_streak == 0,
{
    assert forall|k: nat| k < n implies (#[trigger] ticks(v, k)).pomodoro_break && ticks(
        v,
        k,
    ).break_timer == n - k by {
        lemma_ticks_count_down(v, n, k);
    }
    lemma_ticks_count_down(v, n, (n - 1) as nat);
}

proof fn lemma_ticks_count_down(v: AppView, n: nat, k: nat)
    requires
        v.pomodoro_break,
        v.break_timer == n,
        k < n,
    ensures
        ticks(v, k).pomodoro_break,
        ticks(v, k).break_timer == n - k,
    decreases k,
{
    if k > 0 {
        lemma_ticks_count_down(v, n, (k - 1) as nat);
    }
}

/// While a battle is on, no other screen can be opened.
pub proof fn lemma_no_menus_in_battle(v: AppView, s: GameStatus)
    requires
        v.status == GameStatus::Battling,
        s != GameStatus::Battling,
    ensures
        v.set_status_spec(s) == v,
        v.toggle_dashboard_spec() == v,
{
}

/// During a break the hero is immune: traps and distractions change nothing
/// and ask for nothing.
pub proof fn lemma_break_immunity(v: AppView, amount: u32)
    requires
        v.pomodoro_break,
    ensures
        v.take_damage_spec(amount) == v,
        v.take_damage_effects(amount) == Seq::<EffectView>::empty(),
        v.track_distraction_spec() == v,
        v.track_distraction_effects() == Seq::<EffectView>::empty(),
{
}

/// A distraction breaks the focus streak.
pub proof fn lemma_distraction_resets_streak(v: AppView)
    requires
        !v.pomodoro_break,
    ensures
        v.track_distraction_spec().focus_streak == 0,
{
}

/// A trap costs at least one hit point and never more than its amount, and
/// a hero at zero hit points has fallen.
pub proof fn lemma_trap_damage(v: AppView, amount: u32)
    requires
        !v.pomodoro_break,
        amount >= 1,
    ensures
        v.character.hp > 0 ==> v.take_damage_spec(amount).character.hp < v.character.hp,
        v.take_damage_spec(amount).character.hp + amount >= v.character.hp,
        v.take_damage_spec(amount).character.hp == 0 ==> v.take_damage_spec(amount).status
            == GameStatus::Defeated,
{
    let s: int = power_of(v.character.inventory, ItemType::Shield);
    lemma_power_nonnegative(v.character.inventory, ItemType::Shield);
    if s < 10 {
        let f: int = 10 - s;
        assert((amount * f) / 10 <= amount) by (nonlinear_arith)
            requires
                0 < f <= 10,
        ;
    }
}

pub proof fn lemma_power_nonnegative(items: Seq<ItemView>, kind: ItemType)
    ensures
        power_of(items, kind) >= 0,
    decreases items.len(),
{
    if items.len() > 0 {
        lemma_power_nonnegative(items.drop_last(), kind);
    }
}

/// The price of an item of the merchant, if it sells it.
pub open spec fn price(item_id: u8) -> Option<u32> {
    if item_id == 1 {
        Some(100)
    } else if item_id == 2 {
        Some(150)
    } else if item_id == 3 {
        Some(75)
    } else {
        None
    }
}

/// A purchase happens exactly when the hero can pay the price, and costs
/// exactly the price; otherwise the gold stays as it was.
pub proof fn lemma_purchase_costs_price(v: AppView, item_id: u8)
    ensures
        v.buy_item_spec(item_id).character.gold == match price(item_id) {
            Some(p) => if v.character.gold >= p {
                (v.character.gold - p) as u32
            } else {
                v.character.gold
            },
            None => v.character.gold,
        },
        v.buy_item_spec(item_id).logs.len() == v.logs.len() + 1,
{
}

/// Every step keeps the hero's hit points within the maximum.
pub proof fn lemma_steps_keep_hp_bounded(
    v: AppView,
    status: GameStatus,
    name: Seq<char>,
    minutes: u32,
    amount: u32,
    base: u32,
    item_id: u8,
)
    requires
        v.hp_bounded(),
        v.buy_item_fits(item_id),
        v.register_focus_fits(base),
    ensures
        v.set_status_spec(status).hp_bounded(),
        v.toggle_dashboard_spec().hp_bounded(),
        v.start_boss_spec(name, minutes).hp_bounded(),
        v.tick_spec().hp_bounded(),
        v.take_damage_spec(amount).hp_bounded(),
        v.track_distraction_spec().hp_bounded(),
        v.buy_item_spec(item_id).hp_bounded(),
        v.use_elixir_spec().hp_bounded(),
        v.register_focus_spec(base).hp_bounded(),
{
}

/// No step of the game changes the settings, and every step keeps the log
/// it found: entries are only ever added at the end.
pub proof fn lemma_steps_keep_config_and_log(
    v: AppView,
    status: GameStatus,
    name: Seq<char>,
    minutes: u32,
    amount: u32,
    base: u32,
    item_id: u8,
)
    ensures
        ({
            let steps = seq![
                v.set_status_spec(status),
                v.toggle_dashboard_spec(),
                v.start_boss_spec(name, minutes),
                v.tick_spec(),
                v.take_damage_spec(amount),
                v.track_distraction_spec(),
                v.buy_item_spec(item_id),
                v.use_elixir_spec(),
                v.register_focus_spec(base),
            ];
            forall|i: int|
                0 <= i < steps.len() ==> (#[trigger] steps[i]).config == v.config
                    && steps[i].logs.len() >= v.logs.len() && steps[i].logs.take(
                    v.logs.len() as int,
                ) == v.logs
        }),
{
    let steps = seq![
        v.set_status_spec(status),
        v.toggle_dashboard_spec(),
        v.start_boss_spec(name, minutes),
        v.tick_spec(),
        v.take_damage_spec(amount),
        v.track_distraction_spec(),
        v.buy_item_spec(item_id),
        v.use_elixir_spec(),
        v.register_focus_spec(base),
    ];
    assert forall|i: int| 0 <= i < steps.len() implies (#[trigger] steps[i]).config == v.config
        && steps[i].logs.len() >= v.logs.len() && steps[i].logs.take(v.logs.len() as int)
        == v.logs by {
        assert(steps[i].logs.take(v.logs.len() as int) =~= v.logs);
    }
}

/// The number of items of one kind.
pub open spec fn count_of(items: Seq<ItemView>, kind: ItemType) -> nat
    decreases items.len(),
{
    if items.len() == 0 {
        0
    } else {
        count_of(items.drop_last(), kind) + if items.last().item_type == kind {
            1nat
        } else {
            0nat
        }
    }
}

proof fn lemma_count_remove(items: Seq<ItemView>, kind: ItemType, i: int)
    requires
        0 <= i < items.len(),
    ensures
        count_of(items.remove(i), kind) + (if items[i].item_type == kind {
            1nat
        } else {
            0nat
        }) == count_of(items, kind),
    decreases items.len(),
{
    if i == items.len() - 1 {
        assert(items.remove(i) =~= items.drop_last());
    } else {
        lemma_count_remove(items.drop_last(), kind, i);
        assert(items.remove(i).drop_last() =~= items.drop_last().remove(i));
        assert(items.remove(i).last() == items.last());
    }
}

/// Drinking an elixir uses up exactly one elixir, and heals by the heal
/// amount but not beyond the maximum.
pub proof fn lemma_elixir_used_once(v: AppView)
    requires
        has_kind(v.character.inventory, ItemType::Elixir),
    ensures
        count_of(v.use_elixir_spec().character.inventory, ItemType::Elixir) + 1 == count_of(
            v.character.inventory,
            ItemType::Elixir,
        ),
        v.use_elixir_spec().character.hp == if v.character.hp + v.config.base_heal_amount
            < v.character.max_hp {
            (v.character.hp + v.config.base_heal_amount) as u32
        } else {
            v.character.max_hp
        },
{
    let items = v.character.inventory;
    let i: int = choose|i: int| 0 <= i < items.len() && #[trigger] items[i].item_type == ItemType::Elixir;
    lemma_first_exists(items, ItemType::Elixir, i);
    let p: int = first_of(items, ItemType::Elixir);
    lemma_count_remove(items, ItemType::Elixir, p);
}

proof fn lemma_first_exists(items: Seq<ItemView>, kind: ItemType, i: int)
    requires
        0 <= i < items.len(),
        items[i].item_type == kind,
    ensures
        is_first_of(items, kind, first_of(items, kind)),
    decreases i,
{
    if exists|j: int| 0 <= j < i && #[trigger] items[j].item_type == kind {
        let j: int = choose|j: int| 0 <= j < i && #[trigger] items[j].item_type == kind;
        lemma_first_exists(items, kind, j);
    } else {
        assert(is_first_of(items, kind, i));
    }
}

/// Beating a boss earns 100 experience, one more boss slain, five gold a
/// minute of its task and a Caffeine Elixir, and ends the battle.
pub proof fn lemma_victory_rewards(v: AppView, base: u32)
    requires
        v.status == GameStatus::Battling,
        !v.pomodoro_break,
        v.focus_streak + 1 < streak_for_break(),
        v.current_boss is Some,
        v.current_boss->0.hp - v.pulse_damage(base) <= 0,
        v.register_focus_fits(base),
    ensures
        ({
            let w = v.register_focus_spec(base);
            &&& w.status == GameStatus::Victorious
            &&& w.character.xp == v.character.xp + 100
            &&& w.character.bosses_defeated == v.character.bosses_defeated + 1
            &&& w.character.gold == v.character.gold + v.victory_gold()
            &&& w.character.inventory.len() == v.character.inventory.len() + 1
            &&& w.character.inventory.last().item_type == ItemType::Elixir
        }),
        v.register_focus_effects(base).last() == EffectView::Notify(Notice::Victory),
{
}

/// The state after `n` focus pulses of `base` tenths.
pub open spec fn pulses(v: AppView, base: u32, n: nat) -> AppView
    decreases n,
{
    if n == 0 {
        v
    } else {
        pulses(v, base, (n - 1) as nat).register_focus_spec(base)
    }
}

/// In a battle that the boss survives, a streak of 1500 focus pulses earns
/// the five-minute break: every earlier pulse keeps the battle going with
/// the streak one longer, and the last raises the shield.
pub proof fn lemma_streak_earns_break(v: AppView, base: u32)
    requires
        v.status == GameStatus::Battling,
        !v.pomodoro_break,
        v.focus_streak == 0,
        v.character.focus_pulses + streak_for_break() <= u32::MAX,
        v.current_boss matches Some(b) ==> b.hp > (streak_for_break() - 1) * v.pulse_damage(base),
    ensures
        forall|k: nat|
            k < streak_for_break() ==> (#[trigger] pulses(v, base, k)).focus_streak == k
                && pulses(v, base, k).status == GameStatus::Battling && !pulses(
                v,
                base,
                k,
            ).pomodoro_break,
        pulses(v, base, streak_for_break() as nat).pomodoro_break,
        pulses(v, base, streak_for_break() as nat).break_timer == break_seconds(),
{
    assert forall|k: nat| k < streak_for_break() implies (#[trigger] pulses(v, base, k)).focus_streak
        == k && pulses(v, base, k).status == GameStatus::Battling && !pulses(
        v,
        base,
        k,
    ).pomodoro_break by {
        lemma_pulses_step(v, base, k);
    }
    lemma_pulses_step(v, base, (streak_for_break() - 1) as nat);
}

proof fn lemma_pulses_step(v: AppView, base: u32, k: nat)
    requires
        v.status == GameStatus::Battling,
        !v.pomodoro_break,
        v.focus_streak == 0,
        v.character.focus_pulses + streak_for_break() <= u32::MAX,
        v.current_boss matches Some(b) ==> b.hp > (streak_for_break() - 1) * v.pulse_damage(base),
        k < streak_for_break(),
    ensures
        ({
            let w = pulses(v, base, k);
            &&& w.focus_streak == k
            &&& w.status == GameStatus::Battling
            &&& !w.pomodoro_break
            &&& w.character.focus_pulses == v.character.focus_pulses + k
            &&& w.character.inventory == v.character.inventory
            &&& (w.current_boss is Some <==> v.current_boss is Some)
            &&& v.current_boss matches Some(b) ==> w.current_boss->0.hp == b.hp - k
                * v.pulse_damage(base)
        }),
    decreases k,
{
    if k > 0 {
        lemma_pulses_step(v, base, (k - 1) as nat);
        let w = pulses(v, base, (k - 1) as nat);
        lemma_power_nonnegative(v.character.inventory, ItemType::Weapon);
        let d: int = v.pulse_damage(base);
        match v.current_boss {
            Some(b) => {
                assert((k - 1) * d + d == k * d) by (nonlinear_arith);
                assert(k * d <= (streak_for_break() - 1) * d) by (nonlinear_arith)
                    requires
                        k <= streak_for_break() - 1,
                        d >= 0,
                ;
            },
            None => {},
        }
    }
}


/// The decimal writing of a number is a string of digits that reads back as
/// that number.
pub proof fn lemma_decimal_reads_back(n: nat)
    ensures
        decimal(n).len() >= 1,
        forall|i: int| 0 <= i < decimal(n).len() ==> is_digit(#[trigger] decimal(n)[i]),
        digits_value(decimal(n)) == n,
    decreases n,
{
    if n >= 10 {
        lemma_decimal_reads_back(n / 10);
        let d = decimal(n);
        assert(d.drop_last() =~= decimal(n / 10));
        assert(d.last() == digit_char(n % 10));
        assert(digit_char(n % 10) as u32 == n % 10 + 48);
        assert((n / 10) * 10 + n % 10 == n) by (nonlinear_arith);
        assert(digits_value(d) == digits_value(decimal(n / 10)) * 10 + (n % 10));
        assert(digits_value(d) == n);
    } else {
        assert(decimal(n).drop_last() =~= Seq::<char>::empty());
        assert(decimal(n).last() == digit_char(n));
        assert(digit_char(n) as u32 == n + 48);
        assert(digits_value(Seq::<char>::empty()) == 0);
        assert(digits_value(decimal(n)) == digits_value(decimal(n).drop_last()) * 10 + (
        digit_char(n) as u32 - 48) as nat);
        assert(digits_value(decimal(n)) == n);
    }
}

/// A `u32` written in decimal parses back to itself.
pub proof fn lemma_parse_decimal(m: u32)
    ensures
        parse_u32(decimal(m as nat)) == Some(m),
{
    lemma_decimal_reads_back(m as nat);
    let d = decimal(m as nat);
    assert(is_digit(d[0]));
    assert(unsigned_digits(d) == d);
}

proof fn lemma_trim_shortens(s: Seq<char>)
    ensures
        trim_start(s).len() <= s.len(),
        trim_end(s).len() <= s.len(),
    decreases s.len(),
{
    if s.len() > 0 {
        lemma_trim_shortens(s.drop_first());
        lemma_trim_shortens(s.drop_last());
    }
}

/// A string that trimming leaves alone starts with no whitespace, and
/// either end of the trim leaves it alone.
proof fn lemma_trimmed(name: Seq<char>)
    requires
        trim(name) == name,
    ensures
        name.len() > 0 ==> !is_whitespace(name[0]),
        trim_start(name) == name,
        trim_end(name) == name,
{
    if name.len() > 0 && is_whitespace(name[0]) {
        lemma_trim_shortens(name.drop_first());
        lemma_trim_shortens(trim_start(name));
        assert(false);
    }
}

proof fn lemma_no_char_after(x: Seq<char>, y: Seq<char>, c: char)
    requires
        forall|k: int| 0 <= k < y.len() ==> y[k] != c,
    ensures
        last_index_of(x + y, c) == last_index_of(x, c),
    decreases y.len(),
{
    if y.len() > 0 {
        assert((x + y).drop_last() =~= x + y.drop_last());
        assert((x + y).last() == y.last());
        lemma_no_char_after(x, y.drop_last(), c);
    } else {
        assert(x + y =~= x);
    }
}

/// The line `- [ ] <name> (<N>m)` of a checklist.
pub open spec fn task_line(name: Seq<char>, minutes: u32) -> Seq<char> {
    seq!['-', ' ', '[', ' ', ']', ' '] + name + seq![' ', '('] + decimal(minutes as nat) + seq![
        'm',
        ')',
    ]
}

/// The text of the task on the line `task_line(name, minutes)`.
pub open spec fn task_text(name: Seq<char>, minutes: u32) -> Seq<char> {
    let task_tail = seq!['('] + decimal(minutes as nat) + seq!['m', ')'];
    if name.len() > 0 {
        name + seq![' '] + task_tail
    } else {
        task_tail
    }
}

proof fn lemma_task_line_text(name: Seq<char>, minutes: u32)
    requires
        trim(name) == name,
    ensures
        trim(task_line(name, minutes)) == task_line(name, minutes),
        is_open_task(task_line(name, minutes)),
        trim(task_line(name, minutes).skip(5)) == task_text(name, minutes),
{
    let d = decimal(minutes as nat);
    lemma_trimmed(name);
    let line = task_line(name, minutes);
    assert(trim_start(line) == line);
    assert(trim_end(line) == line);
    let rest = line.skip(5);
    let tail = seq![' ', '('] + d + seq!['m', ')'];
    let task = task_text(name, minutes);
    assert(rest =~= seq![' '] + (name + tail));
    assert(rest.drop_first() =~= name + tail);
    assert(rest[0] == ' ');
    assert(is_whitespace(' '));
    assert(trim_start(rest) == trim_start(name + tail));
    if name.len() > 0 {
        assert((name + tail)[0] == name[0]);
        assert(!is_whitespace((name + tail)[0]));
        assert(trim_start(name + tail) == name + tail);
        assert(name + tail =~= task);
    } else {
        assert(name + tail =~= tail);
        assert(tail[0] == ' ');
        assert(trim_start(tail) == trim_start(tail.drop_first()));
        assert(tail.drop_first() =~= task);
        assert(task[0] == '(');
        assert(!is_whitespace('('));
        assert(trim_start(task) == task);
    }
    assert(trim_start(rest) == task);
    assert(task.last() == ')');
    assert(trim_end(task) == task);
}

proof fn lemma_task_text_boss(name: Seq<char>, minutes: u32)
    requires
        trim(name) == name,
    ensures
        task_boss(task_text(name, minutes)) == boss_for(name, minutes),
{
    let d = decimal(minutes as nat);
    lemma_decimal_reads_back(minutes as nat);
    lemma_parse_decimal(minutes);
    lemma_trimmed(name);
    let task = task_text(name, minutes);
    let before = if name.len() > 0 {
        name + seq![' ']
    } else {
        Seq::<char>::empty()
    };
    let after = d + seq!['m', ')'];
    assert(task =~= before.push('(') + after);
    assert forall|k: int| 0 <= k < after.len() implies after[k] != '(' by {
        if k < d.len() {
            assert(is_digit(d[k]));
        }
    }
    lemma_no_char_after(before.push('('), after, '(');
    assert(before.push('(').last() == '(');
    let start: int = before.len() as int;
    assert(last_index_of(task, '(') == start);
    assert(task.subrange(start + 1, task.len() - 2) =~= d);
    assert(task.take(start) =~= before);
    if name.len() > 0 {
        assert(trim_start(before) == before);
        assert(before.drop_last() =~= name);
        assert(trim_end(before) == trim_end(name));
    }
    assert(trim(before) == name);
}

/// A checklist line written as `- [ ] <name> (<N>m)` gives back the boss
/// `name` of N minutes, for every name that has no whitespace at its ends.
pub proof fn lemma_task_line_reads_back(name: Seq<char>, minutes: u32)
    requires
        trim(name) == name,
    ensures
        parse_line(task_line(name, minutes)) == Some(boss_for(name, minutes)),
{
    lemma_task_line_text(name, minutes);
    lemma_task_text_boss(name, minutes);
}

/// The break is on exactly while its timer runs, and the focus streak
/// never passes 1500 (and stays below it outside a break).
pub open spec fn break_consistent(v: AppView) -> bool {
    &&& v.pomodoro_break <==> v.break_timer > 0
    &&& v.focus_streak <= streak_for_break()
    &&& !v.pomodoro_break ==> v.focus_streak < streak_for_break()
}

/// New and resumed games start with the break consistent, and every step
/// keeps it so.
pub proof fn lemma_break_consistent_kept(
    v: AppView,
    config: ConfigView,
    character: CharacterView,
    status: GameStatus,
    name: Seq<char>,
    minutes: u32,
    amount: u32,
    base: u32,
    item_id: u8,
    event: Event,
    key: char,
)
    ensures
        break_consistent(new_game(config)),
        break_consistent(resumed_game(character, config)),
        break_consistent(v) ==> {
            &&& break_consistent(v.set_status_spec(status))
            &&& break_consistent(v.toggle_dashboard_spec())
            &&& break_consistent(v.start_boss_spec(name, minutes))
            &&& break_consistent(v.tick_spec())
            &&& break_consistent(v.take_damage_spec(amount))
            &&& break_consistent(v.track_distraction_spec())
            &&& break_consistent(v.buy_item_spec(item_id))
            &&& break_consistent(v.use_elixir_spec())
            &&& break_consistent(v.register_focus_spec(base))
            &&& break_consistent(v.handle_event_spec(event))
            &&& break_consistent(v.key_spec(key))
        },
{
}

/// Experience and level follow the bosses slain: 100 experience and one
/// level for each.
pub open spec fn progress_consistent(c: CharacterView) -> bool {
    &&& c.xp == 100 * c.bosses_defeated
    &&& c.level == c.bosses_defeated + 1
}

/// A new hero's progress is consistent, and every step keeps it so: each
/// victory levels the hero up exactly once, and nothing else touches
/// experience, level or bosses slain.
pub proof fn lemma_progress_consistent_kept(
    v: AppView,
    status: GameStatus,
    name: Seq<char>,
    minutes: u32,
    amount: u32,
    base: u32,
    item_id: u8,
    event: Event,
    key: char,
)
    ensures
        progress_consistent(new_character()),
        progress_consistent(v.character) && v.register_focus_fits(base) && v.handle_event_fits(
            event,
        ) ==> {
            &&& progress_consistent(v.set_status_spec(status).character)
            &&& progress_consistent(v.toggle_dashboard_spec().character)
            &&& progress_consistent(v.start_boss_spec(name, minutes).character)
            &&& progress_consistent(v.tick_spec().character)
            &&& progress_consistent(v.take_damage_spec(amount).character)
            &&& progress_consistent(v.track_distraction_spec().character)
            &&& progress_consistent(v.buy_item_spec(item_id).character)
            &&& progress_consistent(v.use_elixir_spec().character)
            &&& progress_consistent(v.register_focus_spec(base).character)
            &&& progress_consistent(v.handle_event_spec(event).character)
            &&& progress_consistent(v.key_spec(key).character)
        },
{
}

/// Starting a task of `minutes` minutes and beating it with the next pulse
/// pays exactly five gold a minute, and the log says so.
pub proof fn lemma_gold_for_minutes(v: AppView, name: Seq<char>, minutes: u32, base: u32)
    requires
        !v.pomodoro_break,
        v.start_boss_spec(name, minutes).register_focus_fits(base),
        minutes * 100 - v.start_boss_spec(name, minutes).pulse_damage(base) <= 0,
    ensures
        ({
            let w = v.start_boss_spec(name, minutes).register_focus_spec(base);
            &&& w.character.gold == v.character.gold + 5 * minutes
            &&& w.logs.last() == "Target eliminated. Found "@ + decimal((5 * minutes) as nat)
                + " Gold and an Elixir."@
        }),
{
    let m: int = minutes as int;
    assert((m * 100) / 100 == m) by (nonlinear_arith);
}

/// Only starting a new task changes which boss is fought: every other step
/// keeps its name and full health.
pub proof fn lemma_boss_kept(
    v: AppView,
    status: GameStatus,
    amount: u32,
    base: u32,
    item_id: u8,
)
    requires
        v.current_boss is Some,
    ensures
        ({
            let steps = seq![
                v.set_status_spec(status),
                v.toggle_dashboard_spec(),
                v.tick_spec(),
                v.take_damage_spec(amount),
                v.track_distraction_spec(),
                v.buy_item_spec(item_id),
                v.use_elixir_spec(),
                v.register_focus_spec(base),
            ];
            forall|i: int|
                0 <= i < steps.len() ==> (#[trigger] steps[i]).current_boss is Some
                    && steps[i].current_boss->0.name == v.current_boss->0.name
                    && steps[i].current_boss->0.max_hp == v.current_boss->0.max_hp
        }),
{
}

/// The state after `k` seconds of distraction.
pub open spec fn distractions(v: AppView, k: nat) -> AppView
    decreases k,
{
    if k == 0 {
        v
    } else {
        distractions(v, (k - 1) as nat).track_distraction_spec()
    }
}

/// Without shields, `k` seconds of distraction cost nothing during the grace
/// period and two hit points for every second after it.
pub proof fn lemma_distraction_costs(v: AppView, k: nat)
    requires
        !v.pomodoro_break,
        v.distraction_timer == 0,
        power_of(v.character.inventory, ItemType::Shield) == 0,
        v.character.hp >= 2 * k,
        v.config.grace_period_seconds < u32::MAX,
        k <= u32::MAX,
    ensures
        distractions(v, k).distraction_timer == k,
        distractions(v, k).character.hp == v.character.hp - 2 * if k
            > v.config.grace_period_seconds {
            k - v.config.grace_period_seconds
        } else {
            0
        },
    decreases k,
{
    lemma_distractions_step(v, k);
}

proof fn lemma_distractions_step(v: AppView, k: nat)
    requires
        !v.pomodoro_break,
        v.distraction_timer == 0,
        power_of(v.character.inventory, ItemType::Shield) == 0,
        v.character.hp >= 2 * k,
        v.config.grace_period_seconds < u32::MAX,
        k <= u32::MAX,
    ensures
        ({
            let w = distractions(v, k);
            &&& !w.pomodoro_break
            &&& w.config == v.config
            &&& w.character.inventory == v.character.inventory
            &&& w.distraction_timer == k
            &&& w.character.hp == v.character.hp - 2 * if k > v.config.grace_period_seconds {
                k - v.config.grace_period_seconds
            } else {
                0
            }
        }),
    decreases k,
{
    if k > 0 {
        lemma_distractions_step(v, (k - 1) as nat);
        assert(reduced_damage(2, 0) == 2);
    }
}

proof fn lemma_split_lines_nonempty(s: Seq<char>)
    ensures
        split_lines(s).len() >= 1,
    decreases s.len(),
{
    if s.len() > 0 {
        lemma_split_lines_nonempty(s.drop_last());
    }
}

/// Extending a text with characters other than newlines extends its last line.
proof fn lemma_split_lines_extend(c: Seq<char>, line: Seq<char>)
    requires
        forall|i: int| 0 <= i < line.len() ==> line[i] != '\n',
    ensures
        split_lines(c + line) == split_lines(c).update(
            split_lines(c).len() - 1,
            split_lines(c).last() + line,
        ),
    decreases line.len(),
{
    lemma_split_lines_nonempty(c);
    if line.len() == 0 {
        assert(c + line =~= c);
        assert(split_lines(c).last() + line =~= split_lines(c).last());
        assert(split_lines(c).update(split_lines(c).len() - 1, split_lines(c).last())
            =~= split_lines(c));
    } else {
        let shorter = line.drop_last();
        lemma_split_lines_extend(c, shorter);
        assert((c + line).drop_last() =~= c + shorter);
        assert((c + line).last() == line.last());
        lemma_split_lines_nonempty(c + shorter);
        assert(line[line.len() - 1] != '\n');
        let prev = split_lines(c + shorter);
        assert(prev.last() == split_lines(c).last() + shorter);
        assert((split_lines(c).last() + shorter).push(line.last()) =~= split_lines(c).last()
            + line);
        assert(split_lines(c + line) == prev.update(
            prev.len() - 1,
            prev.last().push((c + line).last()),
        ));
        assert(split_lines(c + line) =~= split_lines(c).update(
            split_lines(c).len() - 1,
            split_lines(c).last() + line,
        ));
    }
}

/// The bosses of one line, as a board of zero or one.
pub open spec fn line_quests(line: Seq<char>) -> Seq<crate::models::BossView> {
    match parse_line(line) {
        Some(b) => seq![b],
        None => Seq::empty(),
    }
}

/// Lines are read one by one, in order: adding a line (and its newline) to a
/// checklist that is empty or ends in a newline adds that line's boss, if it
/// is an open task, at the end of the quest board.
pub proof fn lemma_quest_board_append(c: Seq<char>, line: Seq<char>)
    requires
        c.len() == 0 || c.last() == '\n',
        forall|i: int| 0 <= i < line.len() ==> line[i] != '\n',
    ensures
        quest_board(c + line + seq!['\n']) == quest_board(c) + line_quests(line),
{
    lemma_split_lines_nonempty(c);
    let lines = split_lines(c);
    let prefix = lines.drop_last();
    assert(lines.last() == Seq::<char>::empty()) by {
        if c.len() > 0 {
            assert(c.drop_last() + seq![c.last()] =~= c);
            lemma_split_lines_nonempty(c.drop_last());
        } else {
            assert(lines =~= seq![Seq::<char>::empty()]);
        }
    }
    assert(trim(Seq::<char>::empty()) =~= Seq::<char>::empty());
    assert(parse_line(Seq::<char>::empty()) is None);
    assert(prefix.push(Seq::<char>::empty()) =~= lines);
    assert(quests(lines) == quests(prefix)) by {
        assert(lines.drop_last() =~= prefix);
    }
    lemma_split_lines_extend(c, line);
    assert(Seq::<char>::empty() + line =~= line);
    let extended = split_lines(c + line);
    assert(extended =~= prefix.push(line));
    let full = c + line + seq!['\n'];
    assert(full.drop_last() =~= c + line);
    assert(full.last() == '\n');
    assert(split_lines(full) == extended.push(Seq::<char>::empty()));
    assert(split_lines(full).drop_last() =~= extended);
    assert(extended.drop_last() =~= prefix);
    assert(quest_board(full) == quests(extended));
    assert(quests(extended) == quests(prefix) + line_quests(line)) by {
        assert(extended.last() == line);
        match parse_line(line) {
            Some(b) => {},
            None => {
                assert(quests(prefix) + Seq::<crate::models::BossView>::empty() =~= quests(prefix));
            },
        }
    }
}

/// The killing blow: when a focus pulse beats the boss and the new
/// experience reaches the next level, the hero goes up exactly one level and
/// is healed to full; otherwise level and hit points stay as they were. The
/// maximum never changes.
pub proof fn lemma_victory_level_up_heals(v: AppView, base: u32)
    requires
        v.status == GameStatus::Battling,
        !v.pomodoro_break,
        v.focus_streak + 1 < streak_for_break(),
        v.current_boss is Some,
        v.current_boss->0.hp - v.pulse_damage(base) <= 0,
        v.register_focus_fits(base),
    ensures
        ({
            let w = v.register_focus_spec(base);
            &&& w.character.max_hp == v.character.max_hp
            &&& if v.character.xp + 100 >= v.character.level * 100 {
                &&& w.character.level == v.character.level + 1
                &&& w.character.hp == v.character.max_hp
                &&& w.logs.contains("LEVEL UP! HP Fully Restored."@)
            } else {
                &&& w.character.level == v.character.level
                &&& w.character.hp == v.character.hp
            }
        }),
{
    let w = v.register_focus_spec(base);
    if v.character.xp + 100 >= v.character.level * 100 {
        assert(w.logs[v.logs.len() as int] == "LEVEL UP! HP Fully Restored."@);
    }
}

/// The characters with the Unicode `White_Space` property, listed one by one.
pub open spec fn unicode_white_space(w: char) -> bool {
    let u = w as u32;
    ||| u == 0x9 || u == 0xa || u == 0xb || u == 0xc || u == 0xd
    ||| u == 0x20 || u == 0x85 || u == 0xa0 || u == 0x1680
    ||| u == 0x2000 || u == 0x2001 || u == 0x2002 || u == 0x2003 || u == 0x2004 || u == 0x2005
    ||| u == 0x2006 || u == 0x2007 || u == 0x2008 || u == 0x2009 || u == 0x200a
    ||| u == 0x2028 || u == 0x2029 || u == 0x202f || u == 0x205f || u == 0x3000
}

/// Indenting a line with any Unicode whitespace (a tab, a space, a no-break
/// space, ...) never changes how it is read, and neither does trailing
/// whitespace: `w + line` and `line + w` give the same boss as `line`.
pub proof fn lemma_whitespace_ignored(w: char, line: Seq<char>)
    requires
        unicode_white_space(w),
    ensures
        parse_line(seq![w] + line) == parse_line(line),
        parse_line(line + seq![w]) == parse_line(line),
        parse_line(seq!['\t'] + line) == parse_line(line),
{
    assert(is_whitespace(w));
    assert(is_whitespace('\t'));
    lemma_trim_ignores_first(w, line);
    lemma_trim_ignores_first('\t', line);
    lemma_trim_ignores_last(w, line);
}

proof fn lemma_trim_ignores_first(w: char, line: Seq<char>)
    requires
        is_whitespace(w),
    ensures
        trim(seq![w] + line) == trim(line),
{
    let s = seq![w] + line;
    assert(s[0] == w);
    assert(s.drop_first() =~= line);
}

proof fn lemma_trim_end_ignores_last(w: char, s: Seq<char>)
    requires
        is_whitespace(w),
    ensures
        trim_end(s + seq![w]) == trim_end(s),
{
    let t = s + seq![w];
    assert(t.last() == w);
    assert(t.drop_last() =~= s);
}

/// Trimming the start of `s + [w]`: whitespace only, or what trimming `s`
/// leaves with `w` after it.
proof fn lemma_trim_start_append(w: char, s: Seq<char>)
    ensures
        trim_start(s + seq![w]) == if trim_start(s).len() == 0 {
            trim_start(seq![w])
        } else {
            trim_start(s) + seq![w]
        },
    decreases s.len(),
{
    if s.len() == 0 {
        assert(s + seq![w] =~= seq![w]);
    } else {
        let t = s + seq![w];
        assert(t[0] == s[0]);
        assert(t.drop_first() =~= s.drop_first() + seq![w]);
        if is_whitespace(s[0]) {
            lemma_trim_start_append(w, s.drop_first());
        }
    }
}

proof fn lemma_trim_ignores_last(w: char, line: Seq<char>)
    requires
        is_whitespace(w),
    ensures
        trim(line + seq![w]) == trim(line),
{
    lemma_trim_start_append(w, line);
    if trim_start(line).len() == 0 {
        let one = seq![w];
        assert(one[0] == w);
        assert(one.drop_first() =~= Seq::<char>::empty());
        assert(trim_start(Seq::<char>::empty()) =~= Seq::<char>::empty());
        assert(trim_end(Seq::<char>::empty()) =~= Seq::<char>::empty());
    } else {
        lemma_trim_end_ignores_last(w, trim_start(line));
    }
}

/// A second of distraction past the grace period bites exactly as a trap of
/// two does after the timer ticks and the streak is lost.
pub proof fn lemma_distraction_is_trap_of_two(v: AppView)
    requires
        !v.pomodoro_break,
        v.distraction_timer + 1 > v.config.grace_period_seconds,
        v.track_distraction_fits(),
    ensures
        ({
            let ticked = AppView {
                distraction_timer: (v.distraction_timer + 1) as u32,
                focus_streak: 0,
                ..v
            };
            &&& v.track_distraction_spec() == ticked.take_damage_spec(2)
            &&& v.track_distraction_effects().len() >= ticked.take_damage_effects(2).len()
            &&& v.track_distraction_effects().subrange(
                v.track_distraction_effects().len() - ticked.take_damage_effects(2).len(),
                v.track_distraction_effects().len() as int,
            ) == ticked.take_damage_effects(2)
        }),
{
    let ticked = AppView {
        distraction_timer: (v.distraction_timer + 1) as u32,
        focus_streak: 0,
        ..v
    };
    let e = v.track_distraction_effects();
    let d = ticked.take_damage_effects(2);
    assert(e.subrange(e.len() - d.len(), e.len() as int) =~= d);
}

/// Past the grace period, a hero with any shield (power at least one tenth,
/// at most half) loses one hit point a second instead of two; without
/// shields, two.
pub proof fn lemma_distraction_damage(v: AppView)
    requires
        !v.pomodoro_break,
        v.distraction_timer + 1 > v.config.grace_period_seconds,
        v.track_distraction_fits(),
        v.character.hp >= 2,
    ensures
        power_of(v.character.inventory, ItemType::Shield) == 0
            ==> v.track_distraction_spec().character.hp == v.character.hp - 2,
        power_of(v.character.inventory, ItemType::Shield) >= 1
            ==> v.track_distraction_spec().character.hp == v.character.hp - 1,
        v.track_distraction_spec().distraction_timer == v.distraction_timer + 1,
        v.track_distraction_spec().focus_streak == 0,
{
    let s: int = power_of(v.character.inventory, ItemType::Shield);
    if 1 <= s < 10 {
        let f: int = 10 - s;
        assert(2 * f / 10 <= 1) by (nonlinear_arith)
            requires
                1 <= f <= 9,
        ;
    }
}

/// The watcher reports a distraction exactly when some running program's
/// lowercased name contains a blacklisted word, whether or not keys are
/// down; it reports a focus pulse exactly when keys are down, and always
/// ends with one tick.
pub proof fn lemma_scan_reports(names: Seq<Seq<char>>, keys_down: bool, blacklist: Seq<Seq<char>>)
    ensures
        ({
            let events = scan_events(names, keys_down, blacklist);
            &&& events.contains(Event::DistractionDetected) <==> exists|i: int, j: int, p: int|
                0 <= i < names.len() && 0 <= j < blacklist.len() && 0 <= p && p
                    + blacklist[j].len() <= lowercase(names[i]).len() && #[trigger] lowercase(
                    names[i],
                ).subrange(p, p + blacklist[j].len()) == blacklist[j]
            &&& events.contains(Event::FocusPulse) <==> keys_down
            &&& events.last() == Event::Tick
            &&& forall|k: int| 0 <= k < events.len() - 1 ==> events[k] != Event::Tick
        }),
{
    let events = scan_events(names, keys_down, blacklist);
    let primitive = exists|i: int, j: int, p: int|
        0 <= i < names.len() && 0 <= j < blacklist.len() && 0 <= p && p + blacklist[j].len()
            <= lowercase(names[i]).len() && #[trigger] lowercase(names[i]).subrange(
            p,
            p + blacklist[j].len(),
        ) == blacklist[j];
    if primitive {
        let (i, j, p) = choose|i: int, j: int, p: int|
            0 <= i < names.len() && 0 <= j < blacklist.len() && 0 <= p && p + blacklist[j].len()
                <= lowercase(names[i]).len() && #[trigger] lowercase(names[i]).subrange(
                p,
                p + blacklist[j].len(),
            ) == blacklist[j];
        assert(crate::watcher::contains_seq(lowercase(names[i]), blacklist[j]));
        assert(crate::watcher::blacklisted(lowercase(names[i]), blacklist));
        assert(crate::watcher::distracted(names, blacklist));
        assert(events[0] == Event::DistractionDetected);
    }
    if events.contains(Event::DistractionDetected) {
        let k = choose|k: int| 0 <= k < events.len() && events[k] == Event::DistractionDetected;
        if !crate::watcher::distracted(names, blacklist) {
            assert(events =~= (if keys_down {
                seq![Event::FocusPulse]
            } else {
                Seq::empty()
            }) + seq![Event::Tick]);
            assert(false);
        }
        let i = choose|i: int|
            0 <= i < names.len() && crate::watcher::blacklisted(
                lowercase(#[trigger] names[i]),
                blacklist,
            );
        let j = choose|j: int|
            0 <= j < blacklist.len() && crate::watcher::contains_seq(
                lowercase(names[i]),
                #[trigger] blacklist[j],
            );
        let p = choose|p: int|
            0 <= p && p + blacklist[j].len() <= lowercase(names[i]).len() && #[trigger] lowercase(
                names[i],
            ).subrange(p, p + blacklist[j].len()) == blacklist[j];
        assert(primitive);
    }
    if keys_down {
        let d: Seq<Event> = if crate::watcher::distracted(names, blacklist) {
            seq![Event::DistractionDetected]
        } else {
            Seq::empty()
        };
        assert(events[d.len() as int] == Event::FocusPulse);
    }
}

} // verus!
