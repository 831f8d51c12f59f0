//! What the screen text says, stated apart from the spec functions that build it.
use vstd::prelude::*;

use crate::mixer::{lines_text, row_matches, screen_controls, screen_head, screen_text, source_line, MixerView};
use crate::screen::{
    decimal, digit_char, line_bar, line_head, line_marks, line_numbers, line_text, name_can_be_shown, padded,
    shown_name, status_text, LinkStatus, SourceRow, SHOWN_NAME_LIMIT,
};
use vstd::utf8::{decode_utf8_encode_utf8, encode_utf8, encode_utf8_valid_utf8, valid_utf8_split};

verus! {

/// Whether a character is a decimal digit.
pub open spec fn is_digit(c: char) -> bool {
    48 <= (c as int) <= 57
}

/// The number that a text of decimal digits spells.
pub open spec fn digits_value(s: Seq<char>) -> int
    decreases s.len(),
{
    if s.len() == 0 {
        0
    } else {
        digits_value(s.drop_last()) * 10 + (s.last() as int - 48)
    }
}

proof fn lemma_digit_char(d: nat)
    requires
        d < 10,
    ensures
        digit_char(d) as int == d + 48,
        is_digit(digit_char(d)),
{
}

/// A number is written as decimal digits that spell it, without a leading zero.
pub proof fn lemma_decimal_spells_number(n: nat)
    ensures
        decimal(n).len() > 0,
        forall|i: int| 0 <= i < decimal(n).len() ==> is_digit(#[trigger] decimal(n)[i]),
        digits_value(decimal(n)) == n,
        decimal(n).len() > 1 ==> decimal(n)[0] != '0',
    decreases n,
{
    if n < 10 {
        lemma_digit_char(n);
        let t = decimal(n);
        assert(t == seq![digit_char(n)]);
        assert(t.drop_last() =~= Seq::<char>::empty());
        assert(digits_value(Seq::<char>::empty()) == 0);
        assert(digits_value(t) == digits_value(t.drop_last()) * 10 + (t.last() as int - 48));
        assert(t.len() == 1);
    } else {
        let q = n / 10;
        let d = n % 10;
        lemma_decimal_spells_number(q as nat);
        lemma_digit_char(d as nat);
        let t = decimal(n);
        assert(t == decimal(q as nat) + seq![digit_char(d as nat)]);
        assert(t.drop_last() =~= decimal(q as nat));
        assert(n == q * 10 + d) by {
            vstd::arithmetic::div_mod::lemma_fundamental_div_mod(n as int, 10);
        }
        assert(t.last() == digit_char(d as nat));
        assert(digits_value(t) == digits_value(decimal(q as nat)) * 10 + (t.last() as int - 48));
        assert(('0' as int) == 48);
        assert forall|i: int| 0 <= i < t.len() implies is_digit(#[trigger] t[i]) by {
            if i < t.len() - 1 {
                assert(t[i] == decimal(q as nat)[i]);
            }
        }
        if q < 10 {
            assert(q >= 1);
            lemma_digit_char(q as nat);
            assert(t[0] == digit_char(q as nat));
            assert(t[0] as int != 48);
        } else {
            lemma_decimal_spells_number((q / 10) as nat);
            assert(decimal(q as nat) == decimal((q / 10) as nat) + seq![digit_char((q % 10) as nat)]);
            assert(decimal(q as nat).len() > 1);
            assert(t[0] == decimal(q as nat)[0]);
        }
        assert(digits_value(t) == n);
        assert(t[0] != '0');
    }
}

/// A padded text starts with the text and is filled with spaces up to the
/// width; a text as wide or wider is left as it is.
pub proof fn lemma_padded(text: Seq<char>, width: nat)
    ensures
        padded(text, width).len() == if text.len() < width { width as int } else { text.len() as int },
        padded(text, width).subrange(0, text.len() as int) == text,
        forall|i: int| text.len() <= i < padded(text, width).len() ==> #[trigger] padded(text, width)[i] == ' ',
{
    assert(padded(text, width).subrange(0, text.len() as int) =~= text);
}

/// The bar of a line is `max_volume` characters in brackets: `level` of
/// them `#`, then the rest `-`.
pub proof fn lemma_bar(level: nat, max_volume: nat)
    requires
        level <= max_volume,
    ensures
        line_bar(level, max_volume).len() == max_volume + 4,
        line_bar(level, max_volume)[1] == '[',
        line_bar(level, max_volume)[max_volume + 2int] == ']',
        forall|i: int| 2 <= i < 2 + level ==> #[trigger] line_bar(level, max_volume)[i] == '#',
        forall|i: int| 2 + level <= i < 2 + max_volume ==> #[trigger] line_bar(level, max_volume)[i] == '-',
{
}

/// A line starts with `>` exactly for the selected source, then a space and
/// the label.
pub proof fn lemma_line_head(selected: bool, name: Seq<char>)
    ensures
        (line_head(selected, name)[0] == '>') == selected,
        line_head(selected, name)[1] == ' ',
        line_head(selected, name).subrange(2, 2 + name.len() as int) == name,
{
    lemma_padded(name, 30);
    assert(line_head(selected, name).subrange(2, 2 + name.len() as int) =~= padded(name, 30).subrange(0, name.len() as int));
}

/// A label of at most `SHOWN_NAME_LIMIT` bytes is shown whole; a longer one
/// is shown as its first `SHOWN_NAME_LIMIT` bytes.
pub proof fn lemma_shown_name(name: Seq<char>)
    requires
        name_can_be_shown(name),
    ensures
        encode_utf8(name).len() <= SHOWN_NAME_LIMIT ==> shown_name(name) == name,
        encode_utf8(name).len() > SHOWN_NAME_LIMIT ==> encode_utf8(shown_name(name)) == encode_utf8(name).subrange(
            0,
            SHOWN_NAME_LIMIT as int,
        ),
{
    let bytes = encode_utf8(name);
    if bytes.len() > SHOWN_NAME_LIMIT {
        encode_utf8_valid_utf8(name);
        valid_utf8_split(bytes, SHOWN_NAME_LIMIT as int);
        decode_utf8_encode_utf8(bytes.subrange(0, SHOWN_NAME_LIMIT as int));
    }
}

/// The row of a source marks the selected source only, shows the volume to
/// return to while muted and the volume otherwise, shows the address
/// position only among several addresses, and says disconnected before
/// buffering.
pub proof fn lemma_row_shows_source(r: SourceRow, m: MixerView, i: int)
    requires
        row_matches(r, m, i),
    ensures
        r.selected <==> i == m.current_index,
        m.sources[i].muted ==> r.level == m.sources[i].previous_volume,
        !m.sources[i].muted ==> r.level == m.sources[i].volume,
        r.muted == m.sources[i].muted,
        r.url_position is Some <==> m.sources[i].urls.len() > 1,
        (r.status == LinkStatus::Disconnected) <==> m.sources[i].disconnected,
        (r.status == LinkStatus::Buffering) <==> (m.sources[i].buffering && !m.sources[i].disconnected),
        (r.status == LinkStatus::Playing) <==> (!m.sources[i].buffering && !m.sources[i].disconnected),
{
}

/// The numbers of a line are the level in decimal, `/`, and the scale in decimal.
pub proof fn lemma_numbers(level: nat, max_volume: nat)
    ensures
        ({
            let t = line_numbers(level, max_volume);
            let k = decimal(level).len() as int;
            &&& t[k] == '/'
            &&& digits_value(t.subrange(0, k)) == level
            &&& digits_value(t.subrange(k + 1, t.len() as int)) == max_volume
            &&& forall|i: int| 0 <= i < k ==> is_digit(#[trigger] t[i])
            &&& forall|i: int| k < i < t.len() ==> is_digit(#[trigger] t[i])
        }),
{
    lemma_decimal_spells_number(level);
    lemma_decimal_spells_number(max_volume);
    let t = line_numbers(level, max_volume);
    let k = decimal(level).len() as int;
    assert(t.subrange(0, k) =~= decimal(level));
    assert(t.subrange(k + 1, t.len() as int) =~= decimal(max_volume));
    assert forall|i: int| k < i < t.len() implies is_digit(#[trigger] t[i]) by {
        assert(t[i] == decimal(max_volume)[i - k - 1]);
    }
    assert forall|i: int| 0 <= i < k implies is_digit(#[trigger] t[i]) by {
        assert(t[i] == decimal(level)[i]);
    }
}

/// The marks of a line, word for word: ` [MUTED]` while muted, then
/// ` [pos/count]` among several addresses, then ` [DISCONNECTED]`,
/// ` [BUFFERING...]` or nothing.
pub proof fn lemma_marks_text(muted: bool, url_position: Option<(usize, usize)>, status: LinkStatus)
    ensures
        status_text(LinkStatus::Disconnected) == " [DISCONNECTED]"@,
        status_text(LinkStatus::Buffering) == " [BUFFERING...]"@,
        status_text(LinkStatus::Playing) == Seq::<char>::empty(),
        url_position is None ==> line_marks(muted, url_position, status) == (if muted {
            " [MUTED]"@
        } else {
            Seq::<char>::empty()
        }) + status_text(status),
        url_position matches Some((p, c)) ==> line_marks(muted, url_position, status) == (if muted {
            " [MUTED]"@
        } else {
            Seq::<char>::empty()
        }) + seq![' ', '['] + decimal(p as nat) + seq!['/'] + decimal(c as nat) + seq![']'] + status_text(status),
{
    if url_position is None {
        assert(line_marks(muted, url_position, status) =~= (if muted {
            " [MUTED]"@
        } else {
            Seq::<char>::empty()
        }) + status_text(status));
    }
}

/// A line is its start, its bar, its numbers and its marks, one after another.
pub proof fn lemma_line_parts(
    selected: bool,
    name: Seq<char>,
    level: nat,
    max_volume: nat,
    muted: bool,
    url_position: Option<(usize, usize)>,
    status: LinkStatus,
)
    ensures
        ({
            let t = line_text(selected, name, level, max_volume, muted, url_position, status);
            let a = line_head(selected, name).len() as int;
            let b = a + line_bar(level, max_volume).len();
            let c = b + line_numbers(level, max_volume).len();
            &&& t.subrange(0, a) == line_head(selected, name)
            &&& t.subrange(a, b) == line_bar(level, max_volume)
            &&& t.subrange(b, c) == line_numbers(level, max_volume)
            &&& t.subrange(c, t.len() as int) == line_marks(muted, url_position, status)
        }),
{
    let t = line_text(selected, name, level, max_volume, muted, url_position, status);
    let a = line_head(selected, name).len() as int;
    let b = a + line_bar(level, max_volume).len();
    let c = b + line_numbers(level, max_volume).len();
    assert(t.subrange(0, a) =~= line_head(selected, name));
    assert(t.subrange(a, b) =~= line_bar(level, max_volume));
    assert(t.subrange(b, c) =~= line_numbers(level, max_volume));
    assert(t.subrange(c, t.len() as int) =~= line_marks(muted, url_position, status));
}

/// The screen, word for word: it is cleared and titled `=== noize ===`,
/// then comes one line for each source in order, each ended by a newline,
/// then the keys, and `*** GLOBAL MUTE ACTIVE ***` while the global mute is on.
pub proof fn lemma_screen_words(m: MixerView)
    ensures
        screen_head() == "\x1b[2J\x1b[H"@ + "=== noize ===\n"@,
        screen_controls()
            == "\nControls: j/k=scroll, h/l=volume down/up, m=mute/unmute, space=global mute, 0-9=set volume, q=quit\n"@,
        m.global_mute ==> screen_text(m) == screen_head() + lines_text(m, m.sources.len() as int) + screen_controls()
            + "*** GLOBAL MUTE ACTIVE ***\n"@,
        !m.global_mute ==> screen_text(m) == screen_head() + lines_text(m, m.sources.len() as int) + screen_controls(),
        lines_text(m, 0) == Seq::<char>::empty(),
        forall|k: int| 0 < k <= m.sources.len() ==> #[trigger] lines_text(m, k) == lines_text(m, k - 1) + source_line(m, k - 1) + "\n"@,
{
    if !m.global_mute {
        assert(screen_text(m) =~= screen_head() + lines_text(m, m.sources.len() as int) + screen_controls());
    }
}

} // verus!
