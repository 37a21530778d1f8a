//! The console's command language: a line is trimmed, split into words at ASCII
//! whitespace, and read as one of the game's commands.
use vstd::prelude::*;

verus! {

/// Whether `c` is whitespace as `char::is_whitespace` defines it (Unicode
/// White_Space).
pub open spec fn spec_is_whitespace(c: char) -> bool {
    ||| '\u{9}' <= c <= '\u{d}'
    ||| c == ' '
    ||| c == '\u{85}'
    ||| c == '\u{a0}'
    ||| c == '\u{1680}'
    ||| '\u{2000}' <= c <= '\u{200a}'
    ||| c == '\u{2028}'
    ||| c == '\u{2029}'
    ||| c == '\u{202f}'
    ||| c == '\u{205f}'
    ||| c == '\u{3000}'
}

/// Whether `c` is ASCII whitespace (space, tab, line feed, form feed, carriage return).
pub open spec fn spec_is_ascii_whitespace(c: char) -> bool {
    c == ' ' || c == '\t' || c == '\n' || c == '\u{c}' || c == '\r'
}

/// `s` without its leading whitespace.
pub open spec fn trim_start(s: Seq<char>) -> Seq<char>
    decreases s.len(),
{
    if s.len() > 0 && spec_is_whitespace(s[0]) {
        trim_start(s.drop_first())
    } else {
        s
    }
}

/// `s` without its trailing whitespace.
pub open spec fn trim_end(s: Seq<char>) -> Seq<char>
    decreases s.len(),
{
    if s.len() > 0 && spec_is_whitespace(s.last()) {
        trim_end(s.drop_last())
    } else {
        s
    }
}

/// `s` without leading and trailing whitespace.
pub open spec fn trim(s: Seq<char>) -> Seq<char> {
    trim_end(trim_start(s))
}

/// Splitting the first `i` characters of `s` at ASCII whitespace: the words
/// completed so far and the word being read.
pub open spec fn words_upto(s: Seq<char>, i: nat) -> (Seq<Seq<char>>, Seq<char>)
    decreases i,
{
    if i == 0 {
        (Seq::empty(), Seq::empty())
    } else {
        let (done, cur) = words_upto(s, (i - 1) as nat);
        let c = s[i - 1];
        if spec_is_ascii_whitespace(c) {
            if cur.len() > 0 {
                (done.push(cur), Seq::empty())
            } else {
                (done, cur)
            }
        } else {
            (done, cur.push(c))
        }
    }
}

/// The words of `s`: its maximal runs of characters other than ASCII whitespace.
pub open spec fn words(s: Seq<char>) -> Seq<Seq<char>> {
    let (done, cur) = words_upto(s, s.len());
    if cur.len() > 0 {
        done.push(cur)
    } else {
        done
    }
}

/// Why a number could not be read.
#[derive(Clone, Copy, PartialEq, Eq, Debug, Structural)]
pub enum NumberError {
    /// A character that is not a digit (or a sign with no digits after it).
    InvalidDigit,
    /// The number is too large for its type.
    TooLarge,
    /// The number is too small for its type.
    TooSmall,
}

/// Reading the decimal digits of `ds` from position `i` on, with `acc` read so far,
/// into a number within `[lo, hi]` (negative when `neg`): the first character that
/// is not a digit, or the first digit that takes the number out of range, decides
/// the error.
pub open spec fn read_digits(ds: Seq<char>, i: int, acc: int, neg: bool, lo: int, hi: int) -> Result<int, NumberError>
    decreases ds.len() - i,
{
    if i < 0 || i >= ds.len() {
        Ok(acc)
    } else if !('0' <= ds[i] <= '9') {
        Err(NumberError::InvalidDigit)
    } else {
        let d = ds[i] as int - '0' as int;
        let next = if neg { acc * 10 - d } else { acc * 10 + d };
        if next < lo {
            Err(NumberError::TooSmall)
        } else if next > hi {
            Err(NumberError::TooLarge)
        } else {
            read_digits(ds, i + 1, next, neg, lo, hi)
        }
    }
}

/// Reading `s` as an integer within `[lo, hi]` the way `str::parse` does: an
/// optional `+` (or `-`, when `signed`), then at least one decimal digit.
pub open spec fn read_int(s: Seq<char>, signed: bool, lo: int, hi: int) -> Result<int, NumberError> {
    if s.len() == 0 {
        Err(NumberError::InvalidDigit)
    } else if (s[0] == '+' || s[0] == '-') && s.len() == 1 {
        Err(NumberError::InvalidDigit)
    } else if s[0] == '+' {
        read_digits(s, 1, 0, false, lo, hi)
    } else if s[0] == '-' && signed {
        read_digits(s, 1, 0, true, lo, hi)
    } else {
        read_digits(s, 0, 0, false, lo, hi)
    }
}

/// A console command.
#[derive(Clone, Copy, PartialEq, Eq, Debug, Structural)]
pub enum Command {
    /// An empty line: nothing to do.
    Nothing,
    Inspect,
    Uninspect,
    /// Let the selected entities sleep this many ticks.
    Sleep(u8),
    /// Send the selected pawns to this tile.
    MoveTo(i16, i16),
    /// Put the camera at this world position.
    SetCamera(i32, i32),
    SanityCheck,
    Reset,
    /// Pause or resume the game.
    Pause,
    Unpause,
    /// Run one simulation tick.
    Tick,
    ToggleUi,
    ShowWalkable,
    ShowBuildable,
    ShowHome,
    ShowDestination,
    ShowDownstream,
    InspectUnderCursor,
    Trace,
    Untrace,
    Kill,
}

/// Why a console line is not a command.
#[derive(Clone, Debug)]
pub enum CommandError {
    /// The first word names no command taking that many arguments.
    Unknown(Vec<char>),
    /// An argument is not a number of the right type.
    BadNumber(NumberError),
}

/// The command meant by a line whose only word is `w`, if any.
pub open spec fn single_word_command(w: Seq<char>) -> Option<Command> {
    if w == "inspect"@ || w == "in"@ {
        Some(Command::Inspect)
    } else if w == "uninspect"@ || w == "unin"@ {
        Some(Command::Uninspect)
    } else if w == "sanitycheck"@ || w == "sc"@ {
        Some(Command::SanityCheck)
    } else if w == "reset"@ {
        Some(Command::Reset)
    } else if w == "pause"@ || w == "pa"@ {
        Some(Command::Pause)
    } else if w == "unpause"@ || w == "up"@ {
        Some(Command::Unpause)
    } else if w == "tick"@ {
        Some(Command::Tick)
    } else if w == "ui"@ || w == "toggle_ui"@ {
        Some(Command::ToggleUi)
    } else if w == "walk"@ || w == "show_walkable"@ {
        Some(Command::ShowWalkable)
    } else if w == "build"@ || w == "show_buildable"@ {
        Some(Command::ShowBuildable)
    } else if w == "home"@ || w == "show_home"@ {
        Some(Command::ShowHome)
    } else if w == "dest"@ || w == "show_destination"@ {
        Some(Command::ShowDestination)
    } else if w == "downstream"@ || w == "show_downstream"@ {
        Some(Command::ShowDownstream)
    } else if w == "i"@ || w == "inspect_under_cursor"@ {
        Some(Command::InspectUnderCursor)
    } else if w == "tr"@ || w == "trace"@ {
        Some(Command::Trace)
    } else if w == "ut"@ || w == "untrace"@ {
        Some(Command::Untrace)
    } else if w == "kill"@ {
        Some(Command::Kill)
    } else {
        None
    }
}

/// What a line whose words are `w` means: a command, or an error in one of its
/// numbers (the first one that fails), or (`Err(None)`) an unknown command.
pub open spec fn spec_command(w: Seq<Seq<char>>) -> Result<Command, Option<NumberError>> {
    if w.len() == 0 {
        Ok(Command::Nothing)
    } else if w.len() == 1 && single_word_command(w[0]) is Some {
        Ok(single_word_command(w[0]).unwrap())
    } else if w.len() == 2 && (w[0] == "sleep"@ || w[0] == "sl"@) {
        match read_int(w[1], false, 0, 255) {
            Ok(t) => Ok(Command::Sleep(t as u8)),
            Err(e) => Err(Some(e)),
        }
    } else if w.len() == 3 && (w[0] == "moveto"@ || w[0] == "mv"@) {
        match read_int(w[1], true, -32768, 32767) {
            Err(e) => Err(Some(e)),
            Ok(x) => match read_int(w[2], true, -32768, 32767) {
                Err(e) => Err(Some(e)),
                Ok(y) => Ok(Command::MoveTo(x as i16, y as i16)),
            },
        }
    } else if w.len() == 3 && (w[0] == "setcamera"@ || w[0] == "setcam"@) {
        match read_int(w[1], true, -0x8000_0000, 0x7fff_ffff) {
            Err(e) => Err(Some(e)),
            Ok(x) => match read_int(w[2], true, -0x8000_0000, 0x7fff_ffff) {
                Err(e) => Err(Some(e)),
                Ok(y) => Ok(Command::SetCamera(x as i32, y as i32)),
            },
        }
    } else {
        Err(None)
    }
}

/// Whether `c` is whitespace (Unicode White_Space, as `char::is_whitespace`).
pub fn is_whitespace(c: char) -> (r: bool)
    ensures
        r == spec_is_whitespace(c),
{
    ('\u{9}' <= c && c <= '\u{d}') || c == ' ' || c == '\u{85}' || c == '\u{a0}' || c == '\u{1680}'
        || ('\u{2000}' <= c && c <= '\u{200a}') || c == '\u{2028}' || c == '\u{2029}' || c == '\u{202f}'
        || c == '\u{205f}' || c == '\u{3000}'
}

/// Whether `c` is ASCII whitespace.
pub fn is_ascii_whitespace(c: char) -> (r: bool)
    ensures
        r == spec_is_ascii_whitespace(c),
{
    c == ' ' || c == '\t' || c == '\n' || c == '\u{c}' || c == '\r'
}

/// The characters of `s`.
fn chars_of(s: &str) -> (v: Vec<char>)
    ensures
        v@ == s@,
{
    let n = s.unicode_len();
    let mut v: Vec<char> = Vec::new();
    let mut i: usize = 0;
    while i < n
        invariant
            n == s@.len(),
            i <= n,
            v@ == s@.take(i as int),
        decreases n - i,
    {
        v.push(s.get_char(i));
        proof { assert(s@.take(i + 1) =~= s@.take(i as int).push(s@[i as int])); }
        i = i + 1;
    }
    proof { assert(s@.take(n as int) =~= s@); }
    v
}

/// Skipping `a` leading whitespace characters, up to one that is not whitespace,
/// is trimming the start.
proof fn lemma_trim_start(s: Seq<char>, a: int)
    requires
        0 <= a <= s.len(),
        forall|i: int| 0 <= i < a ==> spec_is_whitespace(#[trigger] s[i]),
        a == s.len() || !spec_is_whitespace(s[a]),
    ensures
        trim_start(s) == s.subrange(a, s.len() as int),
    decreases a,
{
    if a == 0 {
        assert(s.subrange(0, s.len() as int) =~= s);
    } else {
        let t = s.drop_first();
        assert forall|i: int| 0 <= i < a - 1 implies spec_is_whitespace(#[trigger] t[i]) by {
            assert(t[i] == s[i + 1]);
        }
        if a < s.len() {
            assert(t[a - 1] == s[a]);
        }
        lemma_trim_start(t, a - 1);
        assert(t.subrange(a - 1, t.len() as int) =~= s.subrange(a, s.len() as int));
    }
}

/// Dropping trailing whitespace characters from position `b` on, down to one that is
/// not whitespace, is trimming the end.
proof fn lemma_trim_end(s: Seq<char>, b: int)
    requires
        0 <= b <= s.len(),
        forall|i: int| b <= i < s.len() ==> spec_is_whitespace(#[trigger] s[i]),
        b == 0 || !spec_is_whitespace(s[b - 1]),
    ensures
        trim_end(s) == s.subrange(0, b),
    decreases s.len() - b,
{
    if b == s.len() {
        assert(s.subrange(0, b) =~= s);
    } else {
        let t = s.drop_last();
        assert forall|i: int| b <= i < t.len() implies spec_is_whitespace(#[trigger] t[i]) by {
            assert(t[i] == s[i]);
        }
        if b > 0 {
            assert(t[b - 1] == s[b - 1]);
        }
        assert(spec_is_whitespace(s.last())) by {
            assert(s[s.len() - 1] == s.last());
        }
        lemma_trim_end(t, b);
        assert(t.subrange(0, b) =~= s.subrange(0, b));
    }
}

/// `s` without leading and trailing whitespace.
fn trim_chars(s: &Vec<char>) -> (t: Vec<char>)
    ensures
        t@ == trim(s@),
{
    let n = s.len();
    let mut a: usize = 0;
    while a < n && is_whitespace(s[a])
        invariant
            n == s@.len(),
            a <= n,
            forall|i: int| 0 <= i < a ==> spec_is_whitespace(#[trigger] s@[i]),
        decreases n - a,
    {
        a = a + 1;
    }
    proof { lemma_trim_start(s@, a as int); }
    let ghost u = s@.subrange(a as int, n as int);
    let mut b: usize = n;
    while b > a && is_whitespace(s[b - 1])
        invariant
            n == s@.len(),
            a <= b <= n,
            forall|i: int| b <= i < n ==> spec_is_whitespace(#[trigger] s@[i]),
        decreases b,
    {
        b = b - 1;
    }
    proof {
        assert forall|i: int| b - a <= i < u.len() implies spec_is_whitespace(#[trigger] u[i]) by {
            assert(u[i] == s@[i + a]);
        }
        if b > a {
            assert(u[b - a - 1] == s@[b - 1]);
        }
        lemma_trim_end(u, (b - a) as int);
        assert(u.subrange(0, (b - a) as int) =~= s@.subrange(a as int, b as int));
    }
    let mut t: Vec<char> = Vec::new();
    let mut i: usize = a;
    while i < b
        invariant
            n == s@.len(),
            a <= i <= b <= n,
            t@ == s@.subrange(a as int, i as int),
        decreases b - i,
    {
        t.push(s[i]);
        proof { assert(s@.subrange(a as int, i + 1) =~= s@.subrange(a as int, i as int).push(s@[i as int])); }
        i = i + 1;
    }
    t
}

/// The words of `s`: its maximal runs of characters other than ASCII whitespace.
fn split_words(s: &Vec<char>) -> (w: Vec<Vec<char>>)
    ensures
        w@.len() == words(s@).len(),
        forall|k: int| 0 <= k < w@.len() ==> (#[trigger] w@[k])@ == words(s@)[k],
{
    let mut done: Vec<Vec<char>> = Vec::new();
    let mut cur: Vec<char> = Vec::new();
    let mut i: usize = 0;
    while i < s.len()
        invariant
            i <= s@.len(),
            done@.len() == words_upto(s@, i as nat).0.len(),
            forall|k: int| 0 <= k < done@.len() ==> (#[trigger] done@[k])@ == words_upto(s@, i as nat).0[k],
            cur@ == words_upto(s@, i as nat).1,
        decreases s.len() - i,
    {
        let c = s[i];
        if is_ascii_whitespace(c) {
            if cur.len() > 0 {
                let full = cur;
                done.push(full);
                cur = Vec::new();
            }
        } else {
            cur.push(c);
        }
        i = i + 1;
    }
    if cur.len() > 0 {
        done.push(cur);
    }
    done
}

/// Whether word `w` is the text `lit`.
fn word_is(w: &Vec<char>, lit: &str) -> (r: bool)
    ensures
        r == (w@ == lit@),
{
    let n = lit.unicode_len();
    if w.len() != n {
        return false;
    }
    let mut i: usize = 0;
    while i < n
        invariant
            n == lit@.len(),
            w@.len() == n,
            i <= n,
            forall|k: int| 0 <= k < i ==> w@[k] == lit@[k],
        decreases n - i,
    {
        if w[i] != lit.get_char(i) {
            return false;
        }
        i = i + 1;
    }
    proof { assert(w@ =~= lit@); }
    true
}

/// Read the digits of `ds` from position `i` on (see `read_digits`).
fn read_digits_exec(ds: &Vec<char>, i: usize, neg: bool, lo: i64, hi: i64) -> (r: Result<i64, NumberError>)
    requires
        i <= ds@.len(),
        lo <= 0 <= hi,
        -0x8000_0000 <= lo,
        hi <= 0x7fff_ffff,
    ensures
        match read_digits(ds@, i as int, 0, neg, lo as int, hi as int) {
            Ok(v) => r == Ok::<i64, NumberError>(v as i64) && v == r->Ok_0,
            Err(e) => r == Err::<i64, NumberError>(e),
        },
{
    let mut acc: i64 = 0;
    let mut k: usize = i;
    while k < ds.len()
        invariant
            i <= k <= ds@.len(),
            lo <= acc <= hi,
            lo <= 0 <= hi,
            -0x8000_0000 <= lo,
            hi <= 0x7fff_ffff,
            read_digits(ds@, i as int, 0, neg, lo as int, hi as int) == read_digits(ds@, k as int, acc as int, neg, lo as int, hi as int),
        decreases ds.len() - k,
    {
        let c = ds[k];
        if !('0' <= c && c <= '9') {
            return Err(NumberError::InvalidDigit);
        }
        let d = (c as u32 - '0' as u32) as i64;
        let next = if neg { acc * 10 - d } else { acc * 10 + d };
        if next < lo {
            return Err(NumberError::TooSmall);
        }
        if next > hi {
            return Err(NumberError::TooLarge);
        }
        acc = next;
        k = k + 1;
    }
    Ok(acc)
}

/// Read `s` as an integer within `[lo, hi]` the way `str::parse` does (see `read_int`).
fn read_int_exec(s: &Vec<char>, signed: bool, lo: i64, hi: i64) -> (r: Result<i64, NumberError>)
    requires
        lo <= 0 <= hi,
        -0x8000_0000 <= lo,
        hi <= 0x7fff_ffff,
    ensures
        match read_int(s@, signed, lo as int, hi as int) {
            Ok(v) => r == Ok::<i64, NumberError>(v as i64) && v == r->Ok_0,
            Err(e) => r == Err::<i64, NumberError>(e),
        },
{
    if s.len() == 0 {
        return Err(NumberError::InvalidDigit);
    }
    let first = s[0];
    if (first == '+' || first == '-') && s.len() == 1 {
        return Err(NumberError::InvalidDigit);
    }
    if first == '+' {
        read_digits_exec(s, 1, false, lo, hi)
    } else if first == '-' && signed {
        read_digits_exec(s, 1, true, lo, hi)
    } else {
        read_digits_exec(s, 0, false, lo, hi)
    }
}

/// The command a console line means (see `spec_command`): the line is trimmed and
/// split into words at ASCII whitespace; an empty line means nothing; an unknown
/// first word (or a known one with the wrong number of arguments) is reported.
pub fn parse_command(line: &str) -> (r: Result<Command, CommandError>)
    ensures
        match spec_command(words(trim(line@))) {
            Ok(c) => r matches Ok(c2) && c2 == c,
            Err(Some(e)) => r matches Err(CommandError::BadNumber(e2)) && e2 == e,
            Err(None) => r matches Err(CommandError::Unknown(w)) && w@ == words(trim(line@))[0],
        },
{
    let chars = chars_of(line);
    let trimmed = trim_chars(&chars);
    let w = split_words(&trimmed);
    let ghost ws = words(trim(line@));
    if w.len() == 0 {
        return Ok(Command::Nothing);
    }
    proof { assert(w@[0]@ == ws[0]); }
    let head = &w[0];
    if w.len() == 1 {
        let c = if word_is(head, "inspect") || word_is(head, "in") {
            Some(Command::Inspect)
        } else if word_is(head, "uninspect") || word_is(head, "unin") {
            Some(Command::Uninspect)
        } else if word_is(head, "sanitycheck") || word_is(head, "sc") {
            Some(Command::SanityCheck)
        } else if word_is(head, "reset") {
            Some(Command::Reset)
        } else if word_is(head, "pause") || word_is(head, "pa") {
            Some(Command::Pause)
        } else if word_is(head, "unpause") || word_is(head, "up") {
            Some(Command::Unpause)
        } else if word_is(head, "tick") {
            Some(Command::Tick)
        } else if word_is(head, "ui") || word_is(head, "toggle_ui") {
            Some(Command::ToggleUi)
        } else if word_is(head, "walk") || word_is(head, "show_walkable") {
            Some(Command::ShowWalkable)
        } else if word_is(head, "build") || word_is(head, "show_buildable") {
            Some(Command::ShowBuildable)
        } else if word_is(head, "home") || word_is(head, "show_home") {
            Some(Command::ShowHome)
        } else if word_is(head, "dest") || word_is(head, "show_destination") {
            Some(Command::ShowDestination)
        } else if word_is(head, "downstream") || word_is(head, "show_downstream") {
            Some(Command::ShowDownstream)
        } else if word_is(head, "i") || word_is(head, "inspect_under_cursor") {
            Some(Command::InspectUnderCursor)
        } else if word_is(head, "tr") || word_is(head, "trace") {
            Some(Command::Trace)
        } else if word_is(head, "ut") || word_is(head, "untrace") {
            Some(Command::Untrace)
        } else if word_is(head, "kill") {
            Some(Command::Kill)
        } else {
            None
        };
        if let Some(c) = c {
            return Ok(c);
        }
    } else if w.len() == 2 && (word_is(head, "sleep") || word_is(head, "sl")) {
        proof { assert(w@[1]@ == ws[1]); }
        return match read_int_exec(&w[1], false, 0, 255) {
            Ok(t) => Ok(Command::Sleep(t as u8)),
            Err(e) => Err(CommandError::BadNumber(e)),
        };
    } else if w.len() == 3 && (word_is(head, "moveto") || word_is(head, "mv")) {
        proof { assert(w@[1]@ == ws[1]); assert(w@[2]@ == ws[2]); }
        let x = match read_int_exec(&w[1], true, -32768, 32767) {
            Ok(x) => x,
            Err(e) => {
                return Err(CommandError::BadNumber(e));
            },
        };
        let y = match read_int_exec(&w[2], true, -32768, 32767) {
            Ok(y) => y,
            Err(e) => {
                return Err(CommandError::BadNumber(e));
            },
        };
        return Ok(Command::MoveTo(x as i16, y as i16));
    } else if w.len() == 3 && (word_is(head, "setcamera") || word_is(head, "setcam")) {
        proof { assert(w@[1]@ == ws[1]); assert(w@[2]@ == ws[2]); }
        let x = match read_int_exec(&w[1], true, -0x8000_0000, 0x7fff_ffff) {
            Ok(x) => x,
            Err(e) => {
                return Err(CommandError::BadNumber(e));
            },
        };
        let y = match read_int_exec(&w[2], true, -0x8000_0000, 0x7fff_ffff) {
            Ok(y) => y,
            Err(e) => {
                return Err(CommandError::BadNumber(e));
            },
        };
        return Ok(Command::SetCamera(x as i32, y as i32));
    }
    let unknown = w[0].clone();
    proof { assert(unknown@ == w@[0]@); }
    Err(CommandError::Unknown(unknown))
}

/// The word by which the console knows command `c`, for the commands typed as one
/// word (those of the console's table: inspect, uninspect, sanitycheck, reset,
/// pause, unpause, tick, toggle_ui, show_walkable, show_buildable, show_home,
/// show_destination, show_downstream, inspect_under_cursor, trace, untrace, kill).
pub open spec fn command_name(c: Command) -> Option<Seq<char>> {
    match c {
        Command::Inspect => Some("inspect"@),
        Command::Uninspect => Some("uninspect"@),
        Command::SanityCheck => Some("sanitycheck"@),
        Command::Reset => Some("reset"@),
        Command::Pause => Some("pause"@),
        Command::Unpause => Some("unpause"@),
        Command::Tick => Some("tick"@),
        Command::ToggleUi => Some("toggle_ui"@),
        Command::ShowWalkable => Some("show_walkable"@),
        Command::ShowBuildable => Some("show_buildable"@),
        Command::ShowHome => Some("show_home"@),
        Command::ShowDestination => Some("show_destination"@),
        Command::ShowDownstream => Some("show_downstream"@),
        Command::InspectUnderCursor => Some("inspect_under_cursor"@),
        Command::Trace => Some("trace"@),
        Command::Untrace => Some("untrace"@),
        Command::Kill => Some("kill"@),
        _ => None,
    }
}

/// The short form of the word for command `c`, where the console has one.
pub open spec fn command_abbrev(c: Command) -> Option<Seq<char>> {
    match c {
        Command::Inspect => Some("in"@),
        Command::Uninspect => Some("unin"@),
        Command::SanityCheck => Some("sc"@),
        Command::Pause => Some("pa"@),
        Command::Unpause => Some("up"@),
        Command::ToggleUi => Some("ui"@),
        Command::ShowWalkable => Some("walk"@),
        Command::ShowBuildable => Some("build"@),
        Command::ShowHome => Some("home"@),
        Command::ShowDestination => Some("dest"@),
        Command::ShowDownstream => Some("downstream"@),
        Command::InspectUnderCursor => Some("i"@),
        Command::Trace => Some("tr"@),
        Command::Untrace => Some("ut"@),
        _ => None,
    }
}

/// The letters of the words the console knows.
proof fn lemma_console_spellings()
    ensures
        "inspect"@.len() == 7,
        "inspect"@[0] == 'i',
        "inspect"@[1] == 'n',
        "inspect"@[2] == 's',
        "inspect"@[3] == 'p',
        "inspect"@[4] == 'e',
        "inspect"@[5] == 'c',
        "inspect"@[6] == 't',
        "uninspect"@.len() == 9,
        "uninspect"@[0] == 'u',
        "uninspect"@[1] == 'n',
        "uninspect"@[2] == 'i',
        "uninspect"@[3] == 'n',
        "uninspect"@[4] == 's',
        "uninspect"@[5] == 'p',
        "uninspect"@[6] == 'e',
        "uninspect"@[7] == 'c',
        "uninspect"@[8] == 't',
        "sanitycheck"@.len() == 11,
        "sanitycheck"@[0] == 's',
        "sanitycheck"@[1] == 'a',
        "sanitycheck"@[2] == 'n',
        "sanitycheck"@[3] == 'i',
        "sanitycheck"@[4] == 't',
        "sanitycheck"@[5] == 'y',
        "sanitycheck"@[6] == 'c',
        "sanitycheck"@[7] == 'h',
        "sanitycheck"@[8] == 'e',
        "sanitycheck"@[9] == 'c',
        "sanitycheck"@[10] == 'k',
        "reset"@.len() == 5,
        "reset"@[0] == 'r',
        "reset"@[1] == 'e',
        "reset"@[2] == 's',
        "reset"@[3] == 'e',
        "reset"@[4] == 't',
        "pause"@.len() == 5,
        "pause"@[0] == 'p',
        "pause"@[1] == 'a',
        "pause"@[2] == 'u',
        "pause"@[3] == 's',
        "pause"@[4] == 'e',
        "unpause"@.len() == 7,
        "unpause"@[0] == 'u',
        "unpause"@[1] == 'n',
        "unpause"@[2] == 'p',
        "unpause"@[3] == 'a',
        "unpause"@[4] == 'u',
        "unpause"@[5] == 's',
        "unpause"@[6] == 'e',
        "tick"@.len() == 4,
        "tick"@[0] == 't',
        "tick"@[1] == 'i',
        "tick"@[2] == 'c',
        "tick"@[3] == 'k',
        "toggle_ui"@.len() == 9,
        "toggle_ui"@[0] == 't',
        "toggle_ui"@[1] == 'o',
        "toggle_ui"@[2] == 'g',
        "toggle_ui"@[3] == 'g',
        "toggle_ui"@[4] == 'l',
        "toggle_ui"@[5] == 'e',
        "toggle_ui"@[6] == '_',
        "toggle_ui"@[7] == 'u',
        "toggle_ui"@[8] == 'i',
        "show_walkable"@.len() == 13,
        "show_walkable"@[0] == 's',
        "show_walkable"@[1] == 'h',
        "show_walkable"@[2] == 'o',
        "show_walkable"@[3] == 'w',
        "show_walkable"@[4] == '_',
        "show_walkable"@[5] == 'w',
        "show_walkable"@[6] == 'a',
        "show_walkable"@[7] == 'l',
        "show_walkable"@[8] == 'k',
        "show_walkable"@[9] == 'a',
        "show_walkable"@[10] == 'b',
        "show_walkable"@[11] == 'l',
        "show_walkable"@[12] == 'e',
        "show_buildable"@.len() == 14,
        "show_buildable"@[0] == 's',
        "show_buildable"@[1] == 'h',
        "show_buildable"@[2] == 'o',
        "show_buildable"@[3] == 'w',
        "show_buildable"@[4] == '_',
        "show_buildable"@[5] == 'b',
        "show_buildable"@[6] == 'u',
        "show_buildable"@[7] == 'i',
        "show_buildable"@[8] == 'l',
        "show_buildable"@[9] == 'd',
        "show_buildable"@[10] == 'a',
        "show_buildable"@[11] == 'b',
        "show_buildable"@[12] == 'l',
        "show_buildable"@[13] == 'e',
        "show_home"@.len() == 9,
        "show_home"@[0] == 's',
        "show_home"@[1] == 'h',
        "show_home"@[2] == 'o',
        "show_home"@[3] == 'w',
        "show_home"@[4] == '_',
        "show_home"@[5] == 'h',
        "show_home"@[6] == 'o',
        "show_home"@[7] == 'm',
        "show_home"@[8] == 'e',
        "show_destination"@.len() == 16,
        "show_destination"@[0] == 's',
        "show_destination"@[1] == 'h',
        "show_destination"@[2] == 'o',
        "show_destination"@[3] == 'w',
        "show_destination"@[4] == '_',
        "show_destination"@[5] == 'd',
        "show_destination"@[6] == 'e',
        "show_destination"@[7] == 's',
        "show_destination"@[8] == 't',
        "show_destination"@[9] == 'i',
        "show_destination"@[10] == 'n',
        "show_destination"@[11] == 'a',
        "show_destination"@[12] == 't',
        "show_destination"@[13] == 'i',
        "show_destination"@[14] == 'o',
        "show_destination"@[15] == 'n',
        "show_downstream"@.len() == 15,
        "show_downstream"@[0] == 's',
        "show_downstream"@[1] == 'h',
        "show_downstream"@[2] == 'o',
        "show_downstream"@[3] == 'w',
        "show_downstream"@[4] == '_',
        "show_downstream"@[5] == 'd',
        "show_downstream"@[6] == 'o',
        "show_downstream"@[7] == 'w',
        "show_downstream"@[8] == 'n',
        "show_downstream"@[9] == 's',
        "show_downstream"@[10] == 't',
        "show_downstream"@[11] == 'r',
        "show_downstream"@[12] == 'e',
        "show_downstream"@[13] == 'a',
        "show_downstream"@[14] == 'm',
        "inspect_under_cursor"@.len() == 20,
        "inspect_under_cursor"@[0] == 'i',
        "inspect_under_cursor"@[1] == 'n',
        "inspect_under_cursor"@[2] == 's',
        "inspect_under_cursor"@[3] == 'p',
        "inspect_under_cursor"@[4] == 'e',
        "inspect_under_cursor"@[5] == 'c',
        "inspect_under_cursor"@[6] == 't',
        "inspect_under_cursor"@[7] == '_',
        "inspect_under_cursor"@[8] == 'u',
        "inspect_under_cursor"@[9] == 'n',
        "inspect_under_cursor"@[10] == 'd',
        "inspect_under_cursor"@[11] == 'e',
        "inspect_under_cursor"@[12] == 'r',
        "inspect_under_cursor"@[13] == '_',
        "inspect_under_cursor"@[14] == 'c',
        "inspect_under_cursor"@[15] == 'u',
        "inspect_under_cursor"@[16] == 'r',
        "inspect_under_cursor"@[17] == 's',
        "inspect_under_cursor"@[18] == 'o',
        "inspect_under_cursor"@[19] == 'r',
        "trace"@.len() == 5,
        "trace"@[0] == 't',
        "trace"@[1] == 'r',
        "trace"@[2] == 'a',
        "trace"@[3] == 'c',
        "trace"@[4] == 'e',
        "untrace"@.len() == 7,
        "untrace"@[0] == 'u',
        "untrace"@[1] == 'n',
        "untrace"@[2] == 't',
        "untrace"@[3] == 'r',
        "untrace"@[4] == 'a',
        "untrace"@[5] == 'c',
        "untrace"@[6] == 'e',
        "kill"@.len() == 4,
        "kill"@[0] == 'k',
        "kill"@[1] == 'i',
        "kill"@[2] == 'l',
        "kill"@[3] == 'l',
        "in"@.len() == 2,
        "in"@[0] == 'i',
        "in"@[1] == 'n',
        "unin"@.len() == 4,
        "unin"@[0] == 'u',
        "unin"@[1] == 'n',
        "unin"@[2] == 'i',
        "unin"@[3] == 'n',
        "sc"@.len() == 2,
        "sc"@[0] == 's',
        "sc"@[1] == 'c',
        "pa"@.len() == 2,
        "pa"@[0] == 'p',
        "pa"@[1] == 'a',
        "up"@.len() == 2,
        "up"@[0] == 'u',
        "up"@[1] == 'p',
        "ui"@.len() == 2,
        "ui"@[0] == 'u',
        "ui"@[1] == 'i',
        "walk"@.len() == 4,
        "walk"@[0] == 'w',
        "walk"@[1] == 'a',
        "walk"@[2] == 'l',
        "walk"@[3] == 'k',
        "build"@.len() == 5,
        "build"@[0] == 'b',
        "build"@[1] == 'u',
        "build"@[2] == 'i',
        "build"@[3] == 'l',
        "build"@[4] == 'd',
        "home"@.len() == 4,
        "home"@[0] == 'h',
        "home"@[1] == 'o',
        "home"@[2] == 'm',
        "home"@[3] == 'e',
        "dest"@.len() == 4,
        "dest"@[0] == 'd',
        "dest"@[1] == 'e',
        "dest"@[2] == 's',
        "dest"@[3] == 't',
        "downstream"@.len() == 10,
        "downstream"@[0] == 'd',
        "downstream"@[1] == 'o',
        "downstream"@[2] == 'w',
        "downstream"@[3] == 'n',
        "downstream"@[4] == 's',
        "downstream"@[5] == 't',
        "downstream"@[6] == 'r',
        "downstream"@[7] == 'e',
        "downstream"@[8] == 'a',
        "downstream"@[9] == 'm',
        "i"@.len() == 1,
        "i"@[0] == 'i',
        "tr"@.len() == 2,
        "tr"@[0] == 't',
        "tr"@[1] == 'r',
        "ut"@.len() == 2,
        "ut"@[0] == 'u',
        "ut"@[1] == 't',
        "sleep"@.len() == 5,
        "sleep"@[0] == 's',
        "sleep"@[1] == 'l',
        "sleep"@[2] == 'e',
        "sleep"@[3] == 'e',
        "sleep"@[4] == 'p',
        "sl"@.len() == 2,
        "sl"@[0] == 's',
        "sl"@[1] == 'l',
        "moveto"@.len() == 6,
        "moveto"@[0] == 'm',
        "moveto"@[1] == 'o',
        "moveto"@[2] == 'v',
        "moveto"@[3] == 'e',
        "moveto"@[4] == 't',
        "moveto"@[5] == 'o',
        "mv"@.len() == 2,
        "mv"@[0] == 'm',
        "mv"@[1] == 'v',
        "setcamera"@.len() == 9,
        "setcamera"@[0] == 's',
        "setcamera"@[1] == 'e',
        "setcamera"@[2] == 't',
        "setcamera"@[3] == 'c',
        "setcamera"@[4] == 'a',
        "setcamera"@[5] == 'm',
        "setcamera"@[6] == 'e',
        "setcamera"@[7] == 'r',
        "setcamera"@[8] == 'a',
        "setcam"@.len() == 6,
        "setcam"@[0] == 's',
        "setcam"@[1] == 'e',
        "setcam"@[2] == 't',
        "setcam"@[3] == 'c',
        "setcam"@[4] == 'a',
        "setcam"@[5] == 'm',
{
    reveal_strlit("inspect");
    reveal_strlit("uninspect");
    reveal_strlit("sanitycheck");
    reveal_strlit("reset");
    reveal_strlit("pause");
    reveal_strlit("unpause");
    reveal_strlit("tick");
    reveal_strlit("toggle_ui");
    reveal_strlit("show_walkable");
    reveal_strlit("show_buildable");
    reveal_strlit("show_home");
    reveal_strlit("show_destination");
    reveal_strlit("show_downstream");
    reveal_strlit("inspect_under_cursor");
    reveal_strlit("trace");
    reveal_strlit("untrace");
    reveal_strlit("kill");
    reveal_strlit("in");
    reveal_strlit("unin");
    reveal_strlit("sc");
    reveal_strlit("pa");
    reveal_strlit("up");
    reveal_strlit("ui");
    reveal_strlit("walk");
    reveal_strlit("build");
    reveal_strlit("home");
    reveal_strlit("dest");
    reveal_strlit("downstream");
    reveal_strlit("i");
    reveal_strlit("tr");
    reveal_strlit("ut");
    reveal_strlit("sleep");
    reveal_strlit("sl");
    reveal_strlit("moveto");
    reveal_strlit("mv");
    reveal_strlit("setcamera");
    reveal_strlit("setcam");
}

/// A console line whose only word is the name of a command, or its short form,
/// means that command, whatever whitespace surrounds the word.
pub proof fn lemma_one_word_command(line: Seq<char>, w: Seq<char>, c: Command)
    requires
        words(trim(line)) == seq![w],
        command_name(c) == Some(w) || command_abbrev(c) == Some(w),
    ensures
        spec_command(words(trim(line))) == Ok::<Command, Option<NumberError>>(c),
{
    lemma_console_spellings();
    assert(seq![w].len() == 1 && seq![w][0] == w);
}

/// No two commands are typed alike: the names and short forms of different
/// commands are different words.
pub proof fn lemma_command_words_distinct(c1: Command, c2: Command, w: Seq<char>)
    requires
        command_name(c1) == Some(w) || command_abbrev(c1) == Some(w),
        command_name(c2) == Some(w) || command_abbrev(c2) == Some(w),
    ensures
        c1 == c2,
{
    lemma_console_spellings();
}

} // verus!
