//! The debug console: what it accepts as typed input, how much history it
//! keeps, and the grammar of its commands.

use vstd::prelude::*;

use crate::biomass::BiomassTier;

verus! {

/// Lines of history the console keeps.
pub const MAX_HISTORY: usize = 50;

/// Characters the console input accepts: printable ASCII and the space.
pub open spec fn spec_accepts_char(c: char) -> bool {
    ('!' <= c && c <= '~') || c == ' '
}

pub fn accepts_console_char(c: char) -> (b: bool)
    ensures
        b == spec_accepts_char(c),
{
    ('!' <= c && c <= '~') || c == ' '
}

/// Keeps the last `max` entries of the history, dropping the oldest.
pub fn trim_history<T>(history: &mut Vec<T>, max: usize)
    ensures
        final(history)@ == (if old(history)@.len() > max {
            old(history)@.subrange(old(history)@.len() - max, old(history)@.len() as int)
        } else {
            old(history)@
        }),
{
    let len = history.len();
    if len > max {
        let tail = history.split_off(len - max);
        *history = tail;
    }
}

/// The characters `char::is_whitespace` treats as white space.
pub open spec fn is_space(c: char) -> bool {
    ||| c == ' ' || c == '\t' || c == '\n' || c == '\r' || c == '\u{0B}' || c == '\u{0C}'
    ||| c == '\u{85}' || c == '\u{A0}' || c == '\u{1680}'
    ||| ('\u{2000}' <= c && c <= '\u{200A}')
    ||| c == '\u{2028}' || c == '\u{2029}' || c == '\u{202F}' || c == '\u{205F}' || c == '\u{3000}'
}

fn is_space_exec(c: char) -> (b: bool)
    ensures
        b == is_space(c),
{
    c == ' ' || c == '\t' || c == '\n' || c == '\r' || c == '\u{0B}' || c == '\u{0C}' || c == '\u{85}' || c
        == '\u{A0}' || c == '\u{1680}' || ('\u{2000}' <= c && c <= '\u{200A}') || c == '\u{2028}' || c
        == '\u{2029}' || c == '\u{202F}' || c == '\u{205F}' || c == '\u{3000}'
}

/// Reading `s` from position `i`, with the word `cur` in progress and the
/// words `acc` found so far: the words of the whole text, each a maximal run
/// of characters that are not white space.
pub open spec fn scan_words(s: Seq<char>, i: int, cur: Seq<char>, acc: Seq<Seq<char>>) -> Seq<Seq<char>>
    decreases s.len() - i,
{
    if i >= s.len() {
        if cur.len() > 0 {
            acc.push(cur)
        } else {
            acc
        }
    } else if is_space(s[i]) {
        scan_words(s, i + 1, Seq::empty(), if cur.len() > 0 { acc.push(cur) } else { acc })
    } else {
        scan_words(s, i + 1, cur.push(s[i]), acc)
    }
}

/// The words of `s`, as `split_whitespace` gives them.
pub open spec fn words(s: Seq<char>) -> Seq<Seq<char>> {
    scan_words(s, 0, Seq::empty(), Seq::empty())
}

/// Splits `input` into its words.
pub fn split_words(input: &str) -> (ws: Vec<Vec<char>>)
    ensures
        ws@.len() == words(input@).len(),
        forall|i: int| 0 <= i < ws@.len() ==> #[trigger] ws@[i]@ == words(input@)[i],
{
    let n = input.unicode_len();
    let mut ws: Vec<Vec<char>> = Vec::new();
    let mut cur: Vec<char> = Vec::new();
    let ghost mut acc: Seq<Seq<char>> = Seq::empty();
    let mut i: usize = 0;
    while i < n
        invariant
            n == input@.len(),
            i <= n,
            ws@.len() == acc.len(),
            forall|k: int| 0 <= k < ws@.len() ==> #[trigger] ws@[k]@ == acc[k],
            scan_words(input@, i as int, cur@, acc) == words(input@),
        decreases n - i,
    {
        let c = input.get_char(i);
        let ghost old_cur = cur@;
        let ghost old_acc = acc;
        if is_space_exec(c) {
            if cur.len() > 0 {
                proof {
                    acc = acc.push(cur@);
                }
                ws.push(cur);
                cur = Vec::new();
            }
            assert(cur@ =~= Seq::<char>::empty());
            assert(scan_words(input@, i as int, old_cur, old_acc) == scan_words(
                input@,
                i + 1,
                Seq::empty(),
                if old_cur.len() > 0 { old_acc.push(old_cur) } else { old_acc },
            ));
        } else {
            cur.push(c);
            assert(scan_words(input@, i as int, old_cur, old_acc) == scan_words(
                input@,
                i + 1,
                old_cur.push(c),
                old_acc,
            ));
        }
        i = i + 1;
    }
    if cur.len() > 0 {
        proof {
            acc = acc.push(cur@);
        }
        ws.push(cur);
    }
    ws
}

/// Whether the characters of `w` spell `lit`.
fn is_word(w: &Vec<char>, lit: &str) -> (b: bool)
    ensures
        b == (w@ == lit@),
{
    let n = lit.unicode_len();
    if w.len() != n {
        return false;
    }
    let mut i: usize = 0;
    while i < n
        invariant
            n == lit@.len(),
            w@.len() == n,
            i <= n,
            forall|k: int| 0 <= k < i ==> w@[k] == lit@[k],
        decreases n - i,
    {
        if w[i] != lit.get_char(i) {
            return false;
        }
        i = i + 1;
    }
    assert(w@ =~= lit@);
    true
}

/// The value of a string of decimal digits.
pub open spec fn digits_value(s: Seq<char>) -> int
    decreases s.len(),
{
    if s.len() == 0 {
        0
    } else {
        digits_value(s.drop_last()) * 10 + (s.last() as int - '0' as int)
    }
}

/// Every character is a decimal digit.
pub open spec fn all_digits(s: Seq<char>) -> bool {
    forall|i: int| 0 <= i < s.len() ==> '0' <= #[trigger] s[i] && s[i] <= '9'
}

/// The `i32` that `s` spells as `str::parse` reads it: an optional `+` or `-`
/// then one or more decimal digits, within range; nothing otherwise.
pub open spec fn spec_parse_i32(s: Seq<char>) -> Option<i32> {
    let neg = s.len() > 0 && s[0] == '-';
    let signed = s.len() > 0 && (s[0] == '-' || s[0] == '+');
    let d = if signed { s.drop_first() } else { s };
    if d.len() == 0 || !all_digits(d) {
        None
    } else {
        let v = if neg { -digits_value(d) } else { digits_value(d) };
        if i32::MIN <= v <= i32::MAX {
            Some(v as i32)
        } else {
            None
        }
    }
}

/// Parses a word as an `i32` the way `str::parse` does.
pub fn parse_i32(w: &Vec<char>) -> (r: Option<i32>)
    ensures
        r == spec_parse_i32(w@),
{
    let n = w.len();
    let neg = n > 0 && w[0] == '-';
    let signed = n > 0 && (w[0] == '-' || w[0] == '+');
    let start: usize = if signed { 1 } else { 0 };
    let ghost d = if signed { w@.drop_first() } else { w@ };
    if start >= n {
        return None;
    }
    // Accumulate the magnitude; more than 2^31 is out of range either way.
    let mut v: i64 = 0;
    let mut i: usize = start;
    while i < n
        invariant
            start <= i <= n,
            n == w@.len(),
            start == (if signed { 1usize } else { 0usize }),
            signed == (w@.len() > 0 && (w@[0] == '-' || w@[0] == '+')),
            neg == (w@.len() > 0 && w@[0] == '-'),
            d == (if signed { w@.drop_first() } else { w@ }),
            d == w@.subrange(start as int, n as int),
            all_digits(d.subrange(0, i - start)),
            v == digits_value(d.subrange(0, i - start)),
            0 <= v <= 0x8000_0000,
        decreases n - i,
    {
        let c = w[i];
        if c < '0' || c > '9' {
            assert(d[i - start] == c);
            assert(!all_digits(d));
            return None;
        }
        let digit: i64 = (c as u32 - '0' as u32) as i64;
        proof {
            let t = d.subrange(0, i - start + 1);
            assert(t.drop_last() == d.subrange(0, i - start));
            assert(t.last() == c);
        }
        v = v * 10 + digit;
        assert(all_digits(d.subrange(0, i - start + 1))) by {
            let t = d.subrange(0, i - start + 1);
            assert forall|k: int| 0 <= k < t.len() implies '0' <= #[trigger] t[k] && t[k] <= '9' by {
                if k < i - start {
                    assert(t[k] == d.subrange(0, i - start)[k]);
                }
            }
        }
        if v > 0x8000_0000 {
            proof {
                // Every further digit keeps the value above the range.
                lemma_digits_grow(d, i - start + 1);
                assert(d.subrange(0, d.len() as int) == d);
                if all_digits(d) {
                    assert(digits_value(d.subrange(0, d.len() as int)) > 0x8000_0000);
                }
            }
            return None;
        }
        i = i + 1;
    }
    assert(d.subrange(0, n - start) == d);
    if neg {
        Some((-v) as i32)
    } else if v <= 0x7fff_ffff {
        Some(v as i32)
    } else {
        None
    }
}

/// Once the value of a prefix of digits is above `2^31`, the value of every
/// longer prefix of digits is too.
proof fn lemma_digits_grow(d: Seq<char>, k: int)
    requires
        0 <= k <= d.len(),
        all_digits(d.subrange(0, k)),
        digits_value(d.subrange(0, k)) > 0x8000_0000,
    ensures
        forall|j: int|
            k <= j <= d.len() && all_digits(d.subrange(0, j)) ==> #[trigger] digits_value(d.subrange(0, j))
                > 0x8000_0000,
{
    assert forall|j: int|
        k <= j <= d.len() && all_digits(d.subrange(0, j)) implies #[trigger] digits_value(d.subrange(0, j))
        > 0x8000_0000 by {
        lemma_digits_grow_to(d, k, j);
    }
}

proof fn lemma_digits_grow_to(d: Seq<char>, k: int, j: int)
    requires
        0 <= k <= j <= d.len(),
        all_digits(d.subrange(0, j)),
        digits_value(d.subrange(0, k)) > 0x8000_0000,
    ensures
        digits_value(d.subrange(0, j)) > 0x8000_0000,
    decreases j - k,
{
    if j > k {
        let t = d.subrange(0, j);
        assert(t.drop_last() == d.subrange(0, j - 1));
        assert(all_digits(d.subrange(0, j - 1)));
        lemma_digits_grow_to(d, k, j - 1);
        assert('0' <= t[j - 1] && t[j - 1] <= '9');
    }
}

/// A debug command, as read from one line of console input.
#[derive(Clone, Debug, PartialEq, Eq)]
pub enum DebugCommandKind {
    /// Nothing was typed.
    Empty,
    /// `give biomass <amount>`: the amount as typed, to be read as a number.
    GiveBiomass(Vec<char>),
    /// `set_tier <name>`: the tier named, if the name is one of the five.
    SetTier(Option<BiomassTier>),
    /// `set_hp <amount>`: the amount as typed, to be read as a number.
    SetHp(Vec<char>),
    /// `teleport <x> <y>`: the position, if both are integers.
    Teleport(Option<(i32, i32)>),
    KillAllEnemies,
    PrintBiomass,
    PrintEntities,
    QuestAdvance,
    Help,
    Unknown,
}

/// The tier a name stands for.
pub open spec fn spec_tier_name(w: Seq<char>) -> Option<BiomassTier> {
    if w == "tiny"@ {
        Some(BiomassTier::Tiny)
    } else if w == "small"@ {
        Some(BiomassTier::Small)
    } else if w == "medium"@ {
        Some(BiomassTier::Medium)
    } else if w == "large"@ {
        Some(BiomassTier::Large)
    } else if w == "apex"@ {
        Some(BiomassTier::Apex)
    } else {
        None
    }
}

/// The console's reply to `help`: every command, one per line.
pub fn console_help() -> (s: &'static str)
    ensures
        s@ == "Commands:\n  give biomass <amount>\n  set_tier <tiny|small|medium|large|apex>\n  set_hp <amount>\n  teleport <x> <y>\n  kill_all enemies\n  print biomass\n  print entities\n  quest advance\n  help"@,
{
    "Commands:\n  give biomass <amount>\n  set_tier <tiny|small|medium|large|apex>\n  set_hp <amount>\n  teleport <x> <y>\n  kill_all enemies\n  print biomass\n  print entities\n  quest advance\n  help"
}

/// Which command a list of words forms: 0 empty, 1 give biomass, 2 set_tier,
/// 3 set_hp, 4 teleport, 5 kill_all enemies, 6 print biomass, 7 print
/// entities, 8 quest advance, 9 help, 10 unknown.
pub open spec fn spec_command_code(w: Seq<Seq<char>>) -> int {
    if w.len() == 0 {
        0
    } else if w.len() == 3 && w[0] == "give"@ && w[1] == "biomass"@ {
        1
    } else if w.len() == 2 && w[0] == "set_tier"@ {
        2
    } else if w.len() == 2 && w[0] == "set_hp"@ {
        3
    } else if w.len() == 3 && w[0] == "teleport"@ {
        4
    } else if w.len() == 2 && w[0] == "kill_all"@ && w[1] == "enemies"@ {
        5
    } else if w.len() == 2 && w[0] == "print"@ && w[1] == "biomass"@ {
        6
    } else if w.len() == 2 && w[0] == "print"@ && w[1] == "entities"@ {
        7
    } else if w.len() == 2 && w[0] == "quest"@ && w[1] == "advance"@ {
        8
    } else if w.len() == 1 && w[0] == "help"@ {
        9
    } else {
        10
    }
}

/// The code of a command.
pub open spec fn command_code(c: DebugCommandKind) -> int {
    match c {
        DebugCommandKind::Empty => 0,
        DebugCommandKind::GiveBiomass(_) => 1,
        DebugCommandKind::SetTier(_) => 2,
        DebugCommandKind::SetHp(_) => 3,
        DebugCommandKind::Teleport(_) => 4,
        DebugCommandKind::KillAllEnemies => 5,
        DebugCommandKind::PrintBiomass => 6,
        DebugCommandKind::PrintEntities => 7,
        DebugCommandKind::QuestAdvance => 8,
        DebugCommandKind::Help => 9,
        DebugCommandKind::Unknown => 10,
    }
}

fn tier_from_name(w: &Vec<char>) -> (t: Option<BiomassTier>)
    ensures
        t == spec_tier_name(w@),
{
    if is_word(w, "tiny") {
        Some(BiomassTier::Tiny)
    } else if is_word(w, "small") {
        Some(BiomassTier::Small)
    } else if is_word(w, "medium") {
        Some(BiomassTier::Medium)
    } else if is_word(w, "large") {
        Some(BiomassTier::Large)
    } else if is_word(w, "apex") {
        Some(BiomassTier::Apex)
    } else {
        None
    }
}

/// Reads one line of console input as a debug command.
pub fn parse_command(input: &str) -> (c: DebugCommandKind)
    ensures
        command_code(c) == spec_command_code(words(input@)),
        c matches DebugCommandKind::GiveBiomass(a) ==> a@ == words(input@)[2],
        c matches DebugCommandKind::SetHp(a) ==> a@ == words(input@)[1],
        c matches DebugCommandKind::SetTier(t) ==> t == spec_tier_name(words(input@)[1]),
        c matches DebugCommandKind::Teleport(p) ==> p == (match (
            spec_parse_i32(words(input@)[1]),
            spec_parse_i32(words(input@)[2]),
        ) {
            (Some(x), Some(y)) => Some((x, y)),
            _ => None,
        }),
{
    let ws = split_words(input);
    let ghost w = words(input@);
    let n = ws.len();
    if n == 0 {
        return DebugCommandKind::Empty;
    }
    if n == 3 && is_word(&ws[0], "give") && is_word(&ws[1], "biomass") {
        return DebugCommandKind::GiveBiomass(ws[2].clone());
    }
    if n == 2 && is_word(&ws[0], "set_tier") {
        return DebugCommandKind::SetTier(tier_from_name(&ws[1]));
    }
    if n == 2 && is_word(&ws[0], "set_hp") {
        return DebugCommandKind::SetHp(ws[1].clone());
    }
    if n == 3 && is_word(&ws[0], "teleport") {
        let px = parse_i32(&ws[1]);
        let py = parse_i32(&ws[2]);
        return match (px, py) {
            (Some(x), Some(y)) => DebugCommandKind::Teleport(Some((x, y))),
            _ => DebugCommandKind::Teleport(None),
        };
    }
    if n == 2 && is_word(&ws[0], "kill_all") && is_word(&ws[1], "enemies") {
        return DebugCommandKind::KillAllEnemies;
    }
    if n == 2 && is_word(&ws[0], "print") && is_word(&ws[1], "biomass") {
        return DebugCommandKind::PrintBiomass;
    }
    if n == 2 && is_word(&ws[0], "print") && is_word(&ws[1], "entities") {
        return DebugCommandKind::PrintEntities;
    }
    if n == 2 && is_word(&ws[0], "quest") && is_word(&ws[1], "advance") {
        return DebugCommandKind::QuestAdvance;
    }
    if n == 1 && is_word(&ws[0], "help") {
        return DebugCommandKind::Help;
    }
    DebugCommandKind::Unknown
}

} // verus!
