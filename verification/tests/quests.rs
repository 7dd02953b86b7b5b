use terminal_quest::parser::parse_tasks;

#[test]
fn open_tasks_become_bosses() {
    let content = "# Today\n- [ ] Write report (45m)\n- [x] Done already (5m)\n* [ ] Fix the build\n  - [ ]   Review PR   (10m)  \nplain text\n";
    let (board, count) = parse_tasks(content);
    assert_eq!(count, 3);
    assert_eq!(board.len(), 3);
    assert_eq!(board[0].name, "Write report");
    assert_eq!(board[0].hp, 4500);
    assert_eq!(board[0].max_hp, 4500);
    assert_eq!(board[0].monster_type, 0);
    assert_eq!(board[1].name, "Fix the build");
    assert_eq!(board[1].hp, 2000);
    assert_eq!(board[1].monster_type, 2);
    assert_eq!(board[2].name, "Review PR");
    assert_eq!(board[2].hp, 1000);
    assert_eq!(board[2].monster_type, 1);
}

#[test]
fn bad_minutes_keep_the_whole_text() {
    let (board, count) = parse_tasks("- [ ] Study (abcm)\n- [ ] Huge (99999999999m)\n- [ ] Plus (+7m)");
    assert_eq!(count, 3);
    assert_eq!(board[0].name, "Study (abcm)");
    assert_eq!(board[0].hp, 2000);
    assert_eq!(board[1].name, "Huge (99999999999m)");
    assert_eq!(board[1].hp, 2000);
    assert_eq!(board[2].name, "Plus");
    assert_eq!(board[2].hp, 700);
}

#[test]
fn last_parenthesis_counts() {
    let (board, _) = parse_tasks("- [ ] Call (mom) (3m)\r\n- [ ] (12m)");
    assert_eq!(board[0].name, "Call (mom)");
    assert_eq!(board[0].hp, 300);
    assert_eq!(board[1].name, "");
    assert_eq!(board[1].hp, 1200);
}

#[test]
fn empty_and_bare_checkbox() {
    let (board, count) = parse_tasks("");
    assert_eq!(count, 0);
    assert!(board.is_empty());
    let (board, count) = parse_tasks("- [ ]");
    assert_eq!(count, 1);
    assert_eq!(board[0].name, "");
    assert_eq!(board[0].hp, 2000);
    let (_, count) = parse_tasks("-[ ] no\n- [] no\n+ [ ] no");
    assert_eq!(count, 0);
}

#[test]
fn unicode_whitespace_is_trimmed() {
    let (board, _) = parse_tasks("\u{3000}- [ ]\u{a0}Lire (2m)\u{2003}");
    assert_eq!(board[0].name, "Lire");
    assert_eq!(board[0].hp, 200);
}

#[test]
fn law_task_line_reads_back() {
    for (name, minutes) in [("Write docs", 45u32), ("a", 0), ("Plan (v2)", 4294967295)] {
        let line = format!("- [ ] {} ({}m)", name, minutes);
        let (board, count) = parse_tasks(&line);
        assert_eq!(count, 1);
        assert_eq!(board[0].name, name);
        assert_eq!(board[0].hp, minutes as i64 * 100);
        assert_eq!(board[0].monster_type, (minutes % 3) as usize);
    }
}

#[test]
fn law_appending_a_line_appends_its_boss() {
    let base = "# Plan\n- [ ] One (5m)\n";
    let (before, n) = parse_tasks(base);
    for line in ["- [ ] Two (7m)", "not a task", "* [ ]   Three"] {
        let text = format!("{}{}\n", base, line);
        let (after, m) = parse_tasks(&text);
        let (alone, k) = parse_tasks(line);
        assert_eq!(m, n + k);
        for i in 0..n {
            assert_eq!(after[i].name, before[i].name);
            assert_eq!(after[i].hp, before[i].hp);
        }
        if k == 1 {
            assert_eq!(after[n].name, alone[0].name);
            assert_eq!(after[n].hp, alone[0].hp);
        }
    }
}
