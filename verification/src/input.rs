//! Interpretation of what the user typed at the interactive prompts.
//!
//! The application reads a line, trims it (see [`crate::text::trim`]) and
//! hands it to one of these functions, which decide what it means.

use vstd::prelude::*;
use crate::text::{
    lowercase, parse_usize, parsed_unsigned, same_text, split, split_on, string_views,
    to_lowercase, trim, trimmed,
};
use crate::types::SizedEntry;

verus! {

// ── Yes / no ─────────────────────────────────────────────────────────────

/// `c` with ASCII upper case letters mapped to lower case.
pub open spec fn ascii_lower_char(c: char) -> char {
    if 'A' <= c <= 'Z' {
        ((c as u32) + 32) as char
    } else {
        c
    }
}

/// `s` with ASCII upper case letters mapped to lower case, as
/// `str::to_ascii_lowercase` returns it.
pub open spec fn ascii_lowercase(s: Seq<char>) -> Seq<char> {
    s.map_values(|c: char| ascii_lower_char(c))
}

fn ascii_lower_code(c: char) -> (r: u32)
    ensures
        r == ascii_lower_char(c) as u32,
{
    if 'A' <= c && c <= 'Z' {
        (c as u32) + 32
    } else {
        c as u32
    }
}

/// Whether `s`, with ASCII letters folded to lower case, reads `lower`.
fn ascii_lower_equals(s: &str, lower: &str) -> (r: bool)
    ensures
        r == (ascii_lowercase(s@) == lower@),
{
    let n = s.unicode_len();
    if n != lower.unicode_len() {
        assert(ascii_lowercase(s@).len() != lower@.len());
        return false;
    }
    let mut i: usize = 0;
    while i < n
        invariant
            i <= n,
            n == s@.len(),
            n == lower@.len(),
            forall|k: int| 0 <= k < i ==> ascii_lower_char(s@[k]) == lower@[k],
        decreases n - i,
    {
        let c = s.get_char(i);
        let l = lower.get_char(i);
        if ascii_lower_code(c) != l as u32 {
            assert(ascii_lowercase(s@)[i as int] != lower@[i as int]);
            return false;
        }
        i = i + 1;
    }
    assert(ascii_lowercase(s@) =~= lower@);
    true
}

/// Whether an answer to a yes/no question means yes: `y` or `yes`, in any
/// ASCII letter case.
pub fn is_affirmative(answer: &str) -> (yes: bool)
    ensures
        yes == (ascii_lowercase(answer@) == "y"@ || ascii_lowercase(answer@) == "yes"@),
{
    ascii_lower_equals(answer, "y") || ascii_lower_equals(answer, "yes")
}

// ── Picking from a numbered list ─────────────────────────────────────────

/// The 0-based position chosen by typing the 1-based number `text` in a
/// list of `count` options.
pub open spec fn picked_index(text: Seq<char>, count: nat) -> Option<nat> {
    match parsed_unsigned(text, usize::MAX as nat) {
        Some(n) => if 1 <= n <= count {
            Some((n - 1) as nat)
        } else {
            None
        },
        None => None,
    }
}

/// The option picked by typing its number: `None` unless `input` is a
/// number between 1 and `option_count`.
pub fn pick_option(input: &str, option_count: usize) -> (r: Option<usize>)
    ensures
        match r {
            Some(i) => picked_index(input@, option_count as nat) == Some(i as nat),
            None => picked_index(input@, option_count as nat) is None,
        },
        r matches Some(i) ==> i < option_count,
{
    match parse_usize(input) {
        Some(n) => if n > 0 && n <= option_count {
            Some(n - 1)
        } else {
            None
        },
        None => None,
    }
}

/// The positions picked by a comma separated list of numbers: the valid
/// numbers, in the order typed, each turned into a 0-based position.
pub open spec fn picked_from_pieces(pieces: Seq<Seq<char>>, count: nat) -> Seq<usize>
    decreases pieces.len(),
{
    if pieces.len() == 0 {
        seq![]
    } else {
        let earlier = picked_from_pieces(pieces.drop_last(), count);
        match picked_index(trimmed(pieces.last()), count) {
            Some(i) => earlier.push(i as usize),
            None => earlier,
        }
    }
}

/// What a reply to a multiple choice prompt over `count` options selects:
/// every option for `a` or `all` (in any letter case), otherwise the valid
/// numbers of the comma separated list.
pub open spec fn picked_many(input: Seq<char>, count: nat) -> Seq<usize> {
    let lower = lowercase(input);
    if lower == "a"@ || lower == "all"@ {
        Seq::new(count, |i: int| i as usize)
    } else {
        picked_from_pieces(split_on(input, ','), count)
    }
}

/// Replying `a` or `all`, in any letter case, picks every option once, in
/// list order.
pub proof fn lemma_pick_all(input: Seq<char>, count: nat)
    requires
        count <= usize::MAX,
    ensures
        (lowercase(input) == "a"@ || lowercase(input) == "all"@) ==> picked_many(input, count).len()
            == count && forall|k: int| 0 <= k < count ==> #[trigger] picked_many(input, count)[k] == k,
{
}

/// The options picked by a reply such as `1,3,5`, or `a` for all of them.
pub fn pick_multiple(input: &str, option_count: usize) -> (picked: Vec<usize>)
    ensures
        picked@ == picked_many(input@, option_count as nat),
        forall|k: int| 0 <= k < picked@.len() ==> #[trigger] picked@[k] < option_count,
        (lowercase(input@) == "a"@ || lowercase(input@) == "all"@) ==> picked@.len() == option_count
            && forall|k: int| 0 <= k < option_count ==> #[trigger] picked@[k] == k,
{
    proof {
        lemma_pick_all(input@, option_count as nat);
    }
    let lower = to_lowercase(input);
    let mut picked: Vec<usize> = Vec::new();
    if same_text(lower.as_str(), "a") || same_text(lower.as_str(), "all") {
        let mut i: usize = 0;
        while i < option_count
            invariant
                i <= option_count,
                picked@ =~= Seq::new(i as nat, |k: int| k as usize),
            decreases option_count - i,
        {
            picked.push(i);
            i = i + 1;
        }
        return picked;
    }
    let pieces = split(input, ',');
    let ghost views = string_views(pieces@);
    let mut i: usize = 0;
    assert(views.take(0) =~= Seq::<Seq<char>>::empty());
    while i < pieces.len()
        invariant
            i <= pieces.len(),
            views == string_views(pieces@),
            views == split_on(input@, ','),
            picked@ == picked_from_pieces(views.take(i as int), option_count as nat),
            forall|k: int| 0 <= k < picked@.len() ==> #[trigger] picked@[k] < option_count,
        decreases pieces.len() - i,
    {
        assert(views.take(i + 1).drop_last() =~= views.take(i as int));
        assert(views.take(i + 1).last() == pieces@[i as int]@);
        let piece = trim(pieces[i].as_str());
        match pick_option(piece.as_str(), option_count) {
            Some(index) => picked.push(index),
            None => {},
        }
        i = i + 1;
    }
    assert(views.take(pieces.len() as int) =~= views);
    picked
}

// ── Menu commands ────────────────────────────────────────────────────────

/// A command of the cleanup menu.
#[derive(Debug, Clone, Copy, PartialEq, Eq, Structural)]
pub enum CleanupCommand {
    Back,
    DeleteAll,
    SelectTargets,
    DryRun,
    Unknown,
}

/// The command that a lower case reply names.
pub open spec fn cleanup_command_for(lower: Seq<char>) -> CleanupCommand {
    if lower == "0"@ || lower == "q"@ {
        CleanupCommand::Back
    } else if lower == "a"@ || lower == "all"@ {
        CleanupCommand::DeleteAll
    } else if lower == "s"@ || lower == "select"@ {
        CleanupCommand::SelectTargets
    } else if lower == "d"@ || lower == "dry"@ {
        CleanupCommand::DryRun
    } else {
        CleanupCommand::Unknown
    }
}

/// Reads a reply to the cleanup menu, in any letter case.
pub fn parse_cleanup_command(input: &str) -> (c: CleanupCommand)
    ensures
        c == cleanup_command_for(lowercase(input@)),
        (lowercase(input@) == "0"@ || lowercase(input@) == "q"@) ==> c == CleanupCommand::Back,
        (lowercase(input@) == "a"@ || lowercase(input@) == "all"@) ==> c == CleanupCommand::DeleteAll,
        (lowercase(input@) == "s"@ || lowercase(input@) == "select"@) ==> c
            == CleanupCommand::SelectTargets,
        (lowercase(input@) == "d"@ || lowercase(input@) == "dry"@) ==> c == CleanupCommand::DryRun,
{
    proof {
        lemma_cleanup_keys(input@);
    }
    let lower = to_lowercase(input);
    let l = lower.as_str();
    if same_text(l, "0") || same_text(l, "q") {
        CleanupCommand::Back
    } else if same_text(l, "a") || same_text(l, "all") {
        CleanupCommand::DeleteAll
    } else if same_text(l, "s") || same_text(l, "select") {
        CleanupCommand::SelectTargets
    } else if same_text(l, "d") || same_text(l, "dry") {
        CleanupCommand::DryRun
    } else {
        CleanupCommand::Unknown
    }
}

/// A command of the disk drill-down view.
#[derive(Debug, Clone, Copy, PartialEq, Eq, Structural)]
pub enum DrillCommand {
    /// Return to the main menu.
    Quit,
    /// Go up one level.
    Up,
    /// Show the file type breakdown of the current folder.
    FileTypes,
    /// Show the largest files under the current folder.
    LargestFiles,
    /// Enter the listed folder at this position.
    EnterFolder(usize),
    /// Show the listed file at this position.
    ShowFile(usize),
    /// A number outside the list.
    InvalidNumber,
    /// Anything else.
    Unknown,
}

/// The command that a lower case reply names in a folder listing `entries`.
pub open spec fn drill_command_for(lower: Seq<char>, entries: Seq<SizedEntry>) -> DrillCommand {
    if lower == "0"@ || lower == "q"@ || lower == "quit"@ {
        DrillCommand::Quit
    } else if lower == "b"@ || lower == "back"@ || lower == ".."@ {
        DrillCommand::Up
    } else if lower == "t"@ || lower == "types"@ {
        DrillCommand::FileTypes
    } else if lower == "f"@ || lower == "files"@ {
        DrillCommand::LargestFiles
    } else {
        match parsed_unsigned(lower, usize::MAX as nat) {
            Some(n) => if 1 <= n <= entries.len() {
                if entries[n - 1].is_dir {
                    DrillCommand::EnterFolder((n - 1) as usize)
                } else {
                    DrillCommand::ShowFile((n - 1) as usize)
                }
            } else {
                DrillCommand::InvalidNumber
            },
            None => DrillCommand::Unknown,
        }
    }
}

/// Reads a reply in the drill-down view, in any letter case; a number picks
/// an entry of the listing.
pub fn parse_drill_command(input: &str, entries: &Vec<SizedEntry>) -> (c: DrillCommand)
    ensures
        c == drill_command_for(lowercase(input@), entries@),
        (lowercase(input@) == "f"@ || lowercase(input@) == "files"@) ==> c
            == DrillCommand::LargestFiles,
        (lowercase(input@) == "t"@ || lowercase(input@) == "types"@) ==> c == DrillCommand::FileTypes,
        (lowercase(input@) == "b"@ || lowercase(input@) == "back"@ || lowercase(input@) == ".."@)
            ==> c == DrillCommand::Up,
        (lowercase(input@) == "0"@ || lowercase(input@) == "q"@ || lowercase(input@) == "quit"@)
            ==> c == DrillCommand::Quit,
{
    proof {
        lemma_drill_keys(input@, entries@);
    }
    let lower = to_lowercase(input);
    let l = lower.as_str();
    if same_text(l, "0") || same_text(l, "q") || same_text(l, "quit") {
        DrillCommand::Quit
    } else if same_text(l, "b") || same_text(l, "back") || same_text(l, "..") {
        DrillCommand::Up
    } else if same_text(l, "t") || same_text(l, "types") {
        DrillCommand::FileTypes
    } else if same_text(l, "f") || same_text(l, "files") {
        DrillCommand::LargestFiles
    } else {
        match parse_usize(l) {
            Some(n) => if n >= 1 && n <= entries.len() {
                if entries[n - 1].is_dir {
                    DrillCommand::EnterFolder(n - 1)
                } else {
                    DrillCommand::ShowFile(n - 1)
                }
            } else {
                DrillCommand::InvalidNumber
            },
            None => DrillCommand::Unknown,
        }
    }
}

// ── Drive selection ──────────────────────────────────────────────────────

/// `s` without the `c` characters at its end, as `str::trim_end_matches`
/// returns it.
pub open spec fn strip_end(s: Seq<char>, c: char) -> Seq<char>
    decreases s.len(),
{
    if s.len() > 0 && s.last() == c {
        strip_end(s.drop_last(), c)
    } else {
        s
    }
}

/// The root folder to scan for a reply to the drive letter prompt: `C:\`
/// for an empty reply, otherwise the reply without trailing colons followed
/// by `:\`.
pub open spec fn scan_root_for(reply: Seq<char>) -> Seq<char> {
    if reply.len() == 0 {
        "C:\\"@
    } else {
        strip_end(reply, ':') + ":\\"@
    }
}

/// The root folder to scan, from the reply to the drive letter prompt.
pub fn scan_root_from_reply(reply: &str) -> (root: String)
    ensures
        root@ == scan_root_for(reply@),
{
    let n = reply.unicode_len();
    if n == 0 {
        return String::from_str("C:\\");
    }
    let mut end: usize = n;
    assert(reply@.subrange(0, n as int) =~= reply@);
    while end > 0 && reply.get_char(end - 1) == ':'
        invariant
            end <= n,
            n == reply@.len(),
            strip_end(reply@, ':') == strip_end(reply@.subrange(0, end as int), ':'),
        decreases end,
    {
        assert(reply@.subrange(0, end as int).drop_last() =~= reply@.subrange(0, end - 1));
        end = end - 1;
    }
    proof {
        let t = reply@.subrange(0, end as int);
        if end > 0 {
            assert(t.last() == reply@[end - 1]);
        }
    }
    String::from_str(reply.substring_char(0, end)).concat(":\\")
}

// ── Laws of the menu keys ────────────────────────────────────────────────

/// A reply that begins with a letter or a dot is not a number.
proof fn lemma_word_is_not_number(s: Seq<char>)
    requires
        s.len() > 0,
        !('0' <= s[0] <= '9'),
        s[0] != '+',
    ensures
        parsed_unsigned(s, usize::MAX as nat) is None,
{
    assert(crate::text::unsigned_digits(s) == s);
    assert(!crate::text::is_digit(s[0]));
}

/// The keys of the drill-down view, for any listing and in whatever letter
/// case they were typed: `0`, `q` or `quit` returns to the main menu; `b`,
/// `back` or `..` goes up one level; `t` or `types` shows the file types;
/// `f` or `files` lists the largest files. The number of a listed entry
/// enters it when it is a folder and shows it otherwise; any other number
/// is refused as out of range.
pub proof fn lemma_drill_keys(input: Seq<char>, entries: Seq<SizedEntry>)
    ensures
        (lowercase(input) == "0"@ || lowercase(input) == "q"@ || lowercase(input) == "quit"@)
            ==> drill_command_for(lowercase(input), entries) == DrillCommand::Quit,
        (lowercase(input) == "b"@ || lowercase(input) == "back"@ || lowercase(input) == ".."@)
            ==> drill_command_for(lowercase(input), entries) == DrillCommand::Up,
        (lowercase(input) == "t"@ || lowercase(input) == "types"@) ==> drill_command_for(
            lowercase(input),
            entries,
        ) == DrillCommand::FileTypes,
        (lowercase(input) == "f"@ || lowercase(input) == "files"@) ==> drill_command_for(
            lowercase(input),
            entries,
        ) == DrillCommand::LargestFiles,
        forall|n: nat|
            #![trigger parsed_unsigned(lowercase(input), usize::MAX as nat), entries[n - 1]]
            parsed_unsigned(lowercase(input), usize::MAX as nat) == Some(n) && 1 <= n
                <= entries.len() ==> drill_command_for(lowercase(input), entries) == if entries[n
                - 1].is_dir {
                DrillCommand::EnterFolder((n - 1) as usize)
            } else {
                DrillCommand::ShowFile((n - 1) as usize)
            },
        forall|n: nat|
            parsed_unsigned(lowercase(input), usize::MAX as nat) == Some(n) && (n == 0 || n
                > entries.len()) && lowercase(input) != "0"@ ==> drill_command_for(
                lowercase(input),
                entries,
            ) == DrillCommand::InvalidNumber,
{
    reveal_strlit("0");
    reveal_strlit("q");
    reveal_strlit("quit");
    reveal_strlit("b");
    reveal_strlit("back");
    reveal_strlit("..");
    reveal_strlit("t");
    reveal_strlit("types");
    reveal_strlit("f");
    reveal_strlit("files");
    let l = lowercase(input);
    if parsed_unsigned(l, usize::MAX as nat) is Some {
        if l == "q"@ || l == "quit"@ {
            lemma_word_is_not_number(l);
        }
        if l == "b"@ || l == "back"@ || l == ".."@ {
            lemma_word_is_not_number(l);
        }
        if l == "t"@ || l == "types"@ || l == "f"@ || l == "files"@ {
            lemma_word_is_not_number(l);
        }
    }
    if l == "0"@ {
        assert(crate::text::unsigned_digits(l) == l);
        assert(crate::text::digits_value(l) == crate::text::digits_value(l.drop_last()) * 10
            + crate::text::digit_value(l.last()));
    }
}

/// The keys of the cleanup menu, in whatever letter case they were typed:
/// `0` or `q` goes back, `a` or `all` deletes every safe target, `s` or
/// `select` lets the user pick targets, `d` or `dry` runs without deleting;
/// any other reply is not a command.
pub proof fn lemma_cleanup_keys(input: Seq<char>)
    ensures
        (lowercase(input) == "0"@ || lowercase(input) == "q"@) ==> cleanup_command_for(
            lowercase(input),
        ) == CleanupCommand::Back,
        (lowercase(input) == "a"@ || lowercase(input) == "all"@) ==> cleanup_command_for(
            lowercase(input),
        ) == CleanupCommand::DeleteAll,
        (lowercase(input) == "s"@ || lowercase(input) == "select"@) ==> cleanup_command_for(
            lowercase(input),
        ) == CleanupCommand::SelectTargets,
        (lowercase(input) == "d"@ || lowercase(input) == "dry"@) ==> cleanup_command_for(
            lowercase(input),
        ) == CleanupCommand::DryRun,
        (lowercase(input) != "0"@ && lowercase(input) != "q"@ && lowercase(input) != "a"@
            && lowercase(input) != "all"@ && lowercase(input) != "s"@ && lowercase(input)
            != "select"@ && lowercase(input) != "d"@ && lowercase(input) != "dry"@)
            ==> cleanup_command_for(lowercase(input)) == CleanupCommand::Unknown,
{
    reveal_strlit("0");
    reveal_strlit("q");
    reveal_strlit("a");
    reveal_strlit("all");
    reveal_strlit("s");
    reveal_strlit("select");
    reveal_strlit("d");
    reveal_strlit("dry");
    let l = lowercase(input);
    if l == "a"@ || l == "all"@ || l == "s"@ || l == "select"@ {
        assert(l[0] != "0"@[0] && l[0] != "q"@[0]);
    }
    if l == "s"@ || l == "select"@ {
        assert(l[0] != "a"@[0]);
    }
    if l == "d"@ || l == "dry"@ {
        assert(l[0] != "0"@[0] && l[0] != "q"@[0] && l[0] != "a"@[0] && l[0] != "s"@[0]);
    }
}

} // verus!
