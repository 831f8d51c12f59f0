use vstd::prelude::*;

use vstd::string::{StrSliceExecFns, StringExecFns};
use vstd::utf8::{decode_utf8, encode_utf8, is_char_boundary};

verus! {

/// At most this many bytes of a label are shown.
pub const SHOWN_NAME_LIMIT: usize = 30;

/// What the screen says of a source's stream.
#[derive(PartialEq, Eq, Structural, Debug, Clone, Copy)]
pub enum LinkStatus {
    Playing,
    Buffering,
    Disconnected,
}

/// One line of the screen: the marker of the selection, the label, the
/// volume bar (`level` filled of `max_volume`), the mute mark, the position
/// among several addresses (one-based, and their count), and the status.
pub struct SourceRow {
    pub selected: bool,
    pub name: String,
    pub level: i32,
    pub max_volume: i32,
    pub muted: bool,
    pub url_position: Option<(usize, usize)>,
    pub status: LinkStatus,
}

/// The label as shown: cut to its first `SHOWN_NAME_LIMIT` bytes when longer.
pub open spec fn shown_name(name: Seq<char>) -> Seq<char> {
    let bytes = encode_utf8(name);
    if bytes.len() > SHOWN_NAME_LIMIT {
        decode_utf8(bytes.subrange(0, SHOWN_NAME_LIMIT as int))
    } else {
        name
    }
}

/// Whether the label can be shown: a cut must fall between two characters.
pub open spec fn name_can_be_shown(name: Seq<char>) -> bool {
    let bytes = encode_utf8(name);
    bytes.len() > SHOWN_NAME_LIMIT ==> is_char_boundary(bytes, SHOWN_NAME_LIMIT as int)
}

/// The character of a decimal digit.
pub open spec fn digit_char(d: nat) -> char {
    (d + 48) as char
}

/// The decimal digits of `n`, without leading zeros.
pub open spec fn decimal(n: nat) -> Seq<char>
    decreases n,
{
    if n < 10 {
        seq![digit_char(n)]
    } else {
        decimal(n / 10) + seq![digit_char(n % 10)]
    }
}

/// `n` times the character `c`.
pub open spec fn repeat(c: char, n: nat) -> Seq<char> {
    Seq::new(n, |_i: int| c)
}

/// The text followed by spaces up to `width` characters, when shorter.
pub open spec fn padded(text: Seq<char>, width: nat) -> Seq<char> {
    if text.len() < width {
        text + repeat(' ', (width - text.len()) as nat)
    } else {
        text
    }
}

/// The mark of a stream's status at the end of its line.
pub open spec fn status_text(status: LinkStatus) -> Seq<char> {
    match status {
        LinkStatus::Disconnected => " [DISCONNECTED]"@,
        LinkStatus::Buffering => " [BUFFERING...]"@,
        LinkStatus::Playing => Seq::empty(),
    }
}

/// The start of a line: `>` for the selection, a space, and the label
/// padded to 30 characters.
pub open spec fn line_head(selected: bool, name: Seq<char>) -> Seq<char> {
    seq![if selected { '>' } else { ' ' }, ' '] + padded(name, 30)
}

/// The bar: `#` for each step of the level and `-` for the rest of the scale,
/// in brackets.
pub open spec fn line_bar(level: nat, max_volume: nat) -> Seq<char> {
    seq![' ', '['] + repeat('#', level) + repeat('-', (max_volume - level) as nat) + seq![']', ' ']
}

/// The level and the scale, as `level/max`.
pub open spec fn line_numbers(level: nat, max_volume: nat) -> Seq<char> {
    decimal(level) + seq!['/'] + decimal(max_volume)
}

/// The marks at the end of a line: muted, the position among several
/// addresses, and the status.
pub open spec fn line_marks(muted: bool, url_position: Option<(usize, usize)>, status: LinkStatus) -> Seq<char> {
    (if muted { " [MUTED]"@ } else { Seq::empty() }) + match url_position {
        Some((pos, count)) => seq![' ', '['] + decimal(pos as nat) + seq!['/'] + decimal(count as nat) + seq![']'],
        None => Seq::empty(),
    } + status_text(status)
}

/// One line of the screen.
pub open spec fn line_text(
    selected: bool,
    name: Seq<char>,
    level: nat,
    max_volume: nat,
    muted: bool,
    url_position: Option<(usize, usize)>,
    status: LinkStatus,
) -> Seq<char> {
    line_head(selected, name) + line_bar(level, max_volume) + line_numbers(level, max_volume) + line_marks(
        muted,
        url_position,
        status,
    )
}

/// The line of a row.
pub open spec fn row_text(r: SourceRow) -> Seq<char> {
    line_text(
        r.selected,
        r.name@,
        r.level as nat,
        r.max_volume as nat,
        r.muted,
        r.url_position,
        r.status,
    )
}

fn push_char(s: &mut String, c: char)
    requires
        c == '#' || c == '-' || c == ' ' || c == '[' || c == ']' || c == '/' || c == '>',
    ensures
        final(s)@ == old(s)@ + seq![c],
{
    if c == '#' {
        proof {
            reveal_strlit("#");
        }
        s.append("#");
    } else if c == '-' {
        proof {
            reveal_strlit("-");
        }
        s.append("-");
    } else if c == ' ' {
        proof {
            reveal_strlit(" ");
        }
        s.append(" ");
    } else if c == '[' {
        proof {
            reveal_strlit("[");
        }
        s.append("[");
    } else if c == ']' {
        proof {
            reveal_strlit("]");
        }
        s.append("]");
    } else if c == '/' {
        proof {
            reveal_strlit("/");
        }
        s.append("/");
    } else {
        proof {
            reveal_strlit(">");
        }
        s.append(">");
    }
}

fn push_digit(s: &mut String, d: u64)
    requires
        d < 10,
    ensures
        final(s)@ == old(s)@ + seq![digit_char(d as nat)],
{
    if d == 0 {
        proof {
            reveal_strlit("0");
        }
        s.append("0");
    } else if d == 1 {
        proof {
            reveal_strlit("1");
        }
        s.append("1");
    } else if d == 2 {
        proof {
            reveal_strlit("2");
        }
        s.append("2");
    } else if d == 3 {
        proof {
            reveal_strlit("3");
        }
        s.append("3");
    } else if d == 4 {
        proof {
            reveal_strlit("4");
        }
        s.append("4");
    } else if d == 5 {
        proof {
            reveal_strlit("5");
        }
        s.append("5");
    } else if d == 6 {
        proof {
            reveal_strlit("6");
        }
        s.append("6");
    } else if d == 7 {
        proof {
            reveal_strlit("7");
        }
        s.append("7");
    } else if d == 8 {
        proof {
            reveal_strlit("8");
        }
        s.append("8");
    } else {
        proof {
            reveal_strlit("9");
        }
        s.append("9");
    }
}

fn push_decimal(s: &mut String, n: u64)
    ensures
        final(s)@ == old(s)@ + decimal(n as nat),
    decreases n,
{
    if n < 10 {
        push_digit(s, n);
    } else {
        push_decimal(s, n / 10);
        push_digit(s, n % 10);
        assert(final(s)@ =~= old(s)@ + decimal(n as nat));
    }
}

fn push_repeat(s: &mut String, c: char, n: u64)
    requires
        c == '#' || c == '-' || c == ' ',
    ensures
        final(s)@ == old(s)@ + repeat(c, n as nat),
{
    let ghost start = s@;
    let mut i: u64 = 0;
    while i < n
        invariant
            i <= n,
            c == '#' || c == '-' || c == ' ',
            s@ == start + repeat(c, i as nat),
        decreases n - i,
    {
        push_char(s, c);
        i = i + 1;
        assert(s@ =~= start + repeat(c, i as nat));
    }
}

fn head_text(selected: bool, name: &String) -> (r: String)
    ensures
        r@ == line_head(selected, name@),
{
    let mut s = String::new();
    push_char(&mut s, if selected { '>' } else { ' ' });
    push_char(&mut s, ' ');
    s.append(name.as_str());
    let ghost before_pad = s@;
    let width = name.as_str().unicode_len();
    if width < 30 {
        push_repeat(&mut s, ' ', (30 - width) as u64);
    }
    proof {
        assert(before_pad =~= seq![if selected { '>' } else { ' ' }, ' '] + name@);
        assert(s@ =~= line_head(selected, name@));
    }
    s
}

fn bar_text(level: u64, max_volume: u64) -> (r: String)
    requires
        level <= max_volume,
    ensures
        r@ == line_bar(level as nat, max_volume as nat),
{
    let mut s = String::new();
    push_char(&mut s, ' ');
    push_char(&mut s, '[');
    let ghost a = s@;
    push_repeat(&mut s, '#', level);
    let ghost b = s@;
    push_repeat(&mut s, '-', max_volume - level);
    push_char(&mut s, ']');
    push_char(&mut s, ' ');
    proof {
        assert(a =~= seq![' ', '[']);
        assert(s@ =~= line_bar(level as nat, max_volume as nat));
    }
    s
}

fn numbers_text(level: u64, max_volume: u64) -> (r: String)
    ensures
        r@ == line_numbers(level as nat, max_volume as nat),
{
    let mut s = String::new();
    push_decimal(&mut s, level);
    push_char(&mut s, '/');
    push_decimal(&mut s, max_volume);
    proof {
        assert(s@ =~= line_numbers(level as nat, max_volume as nat));
    }
    s
}

fn marks_text(muted: bool, url_position: Option<(usize, usize)>, status: LinkStatus) -> (r: String)
    ensures
        r@ == line_marks(muted, url_position, status),
{
    let mut s = String::new();
    if muted {
        s.append(" [MUTED]");
    }
    let ghost m = s@;
    match url_position {
        Some((pos, count)) => {
            push_char(&mut s, ' ');
            push_char(&mut s, '[');
            push_decimal(&mut s, pos as u64);
            push_char(&mut s, '/');
            push_decimal(&mut s, count as u64);
            push_char(&mut s, ']');
            assert(s@ =~= m + (seq![' ', '['] + decimal(pos as nat) + seq!['/'] + decimal(count as nat) + seq![']']));
        },
        None => {
            assert(s@ =~= m + Seq::<char>::empty());
        },
    }
    let ghost u = s@;
    match status {
        LinkStatus::Disconnected => s.append(" [DISCONNECTED]"),
        LinkStatus::Buffering => s.append(" [BUFFERING...]"),
        LinkStatus::Playing => {
            assert(s@ =~= u + Seq::<char>::empty());
        },
    }
    proof {
        assert(m =~= (if muted { " [MUTED]"@ } else { Seq::<char>::empty() }));
        assert(s@ =~= line_marks(muted, url_position, status));
    }
    s
}

impl SourceRow {
    /// The line of the screen that shows this row.
    pub fn line(&self) -> (r: String)
        requires
            0 <= self.level <= self.max_volume,
        ensures
            r@ == row_text(*self),
    {
        let mut s = head_text(self.selected, &self.name);
        let bar = bar_text(self.level as u64, self.max_volume as u64);
        s.append(bar.as_str());
        let numbers = numbers_text(self.level as u64, self.max_volume as u64);
        s.append(numbers.as_str());
        let marks = marks_text(self.muted, self.url_position, self.status);
        s.append(marks.as_str());
        s
    }
}

} // verus!
