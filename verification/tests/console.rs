use necrophage::biomass::BiomassTier;
use necrophage::debug::{accepts_console_char, parse_command, parse_i32, split_words, trim_history, DebugCommandKind, MAX_HISTORY};

fn chars(s: &str) -> Vec<char> {
    s.chars().collect()
}

#[test]
fn words_are_split_on_any_white_space() {
    let ws = split_words("  give\tbiomass  50 \n");
    assert_eq!(ws, vec![chars("give"), chars("biomass"), chars("50")]);
    assert!(split_words("   ").is_empty());
}

#[test]
fn commands_are_recognised() {
    assert_eq!(parse_command(""), DebugCommandKind::Empty);
    assert_eq!(parse_command("   "), DebugCommandKind::Empty);
    assert_eq!(parse_command("give biomass 50"), DebugCommandKind::GiveBiomass(chars("50")));
    assert_eq!(parse_command("set_tier apex"), DebugCommandKind::SetTier(Some(BiomassTier::Apex)));
    assert_eq!(parse_command("set_tier huge"), DebugCommandKind::SetTier(None));
    assert_eq!(parse_command("set_hp 12.5"), DebugCommandKind::SetHp(chars("12.5")));
    assert_eq!(parse_command(" teleport 3 -4 "), DebugCommandKind::Teleport(Some((3, -4))));
    assert_eq!(parse_command("teleport x 4"), DebugCommandKind::Teleport(None));
    assert_eq!(parse_command("kill_all enemies"), DebugCommandKind::KillAllEnemies);
    assert_eq!(parse_command("print biomass"), DebugCommandKind::PrintBiomass);
    assert_eq!(parse_command("print entities"), DebugCommandKind::PrintEntities);
    assert_eq!(parse_command("quest advance"), DebugCommandKind::QuestAdvance);
    assert_eq!(parse_command("help"), DebugCommandKind::Help);
    assert_eq!(parse_command("help me"), DebugCommandKind::Unknown);
    assert_eq!(parse_command("give biomass"), DebugCommandKind::Unknown);
}

#[test]
fn integers_parse_like_str_parse() {
    for s in ["0", "7", "+5", "-12", "2147483647", "-2147483648", "2147483648", "-2147483649", "", "-", "+", "1x", "99999999999999"] {
        assert_eq!(parse_i32(&chars(s)), s.parse::<i32>().ok(), "input {s:?}");
    }
}

#[test]
fn console_accepts_printable_ascii() {
    assert!(accepts_console_char('a'));
    assert!(accepts_console_char(' '));
    assert!(accepts_console_char('~'));
    assert!(!accepts_console_char('\n'));
    assert!(!accepts_console_char('é'));
}

#[test]
fn history_keeps_the_newest_lines() {
    let mut h: Vec<u32> = (0..60).collect();
    trim_history(&mut h, MAX_HISTORY);
    assert_eq!(h.len(), 50);
    assert_eq!(h[0], 10);
    assert_eq!(h[49], 59);
    let mut short = vec![1, 2, 3];
    trim_history(&mut short, MAX_HISTORY);
    assert_eq!(short, vec![1, 2, 3]);
}

#[test]
fn help_lists_every_command() {
    let help = necrophage::debug::console_help();
    assert!(help.starts_with("Commands:\n"));
    for cmd in ["give biomass", "set_tier", "set_hp", "teleport", "kill_all enemies", "print biomass", "print entities", "quest advance", "help"] {
        assert!(help.contains(cmd), "missing {cmd}");
    }
    assert_eq!(help.lines().count(), 10);
}
