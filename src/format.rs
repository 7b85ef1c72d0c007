//! Rendering of one record as one line of text, plain or styled for a terminal.

use vstd::prelude::*;
use crate::level::Level;
use crate::style::{
    sgr, fg_palette, fg_light_black, fg_white, fg_light_blue, fg_light_yellow, fg_light_red,
    fg_light_white, fg_reset, bold, italic, reset_all,
};

verus! {

pub open spec fn digit_char(d: nat) -> char {
    if d == 0 { '0' }
    else if d == 1 { '1' }
    else if d == 2 { '2' }
    else if d == 3 { '3' }
    else if d == 4 { '4' }
    else if d == 5 { '5' }
    else if d == 6 { '6' }
    else if d == 7 { '7' }
    else if d == 8 { '8' }
    else { '9' }
}

/// The decimal digits of `n`, without leading zeros.
pub open spec fn decimal(n: nat) -> Seq<char>
    decreases n,
{
    if n < 10 {
        seq![digit_char(n)]
    } else {
        decimal(n / 10).push(digit_char(n % 10))
    }
}

/// `:<line>` where the record knows its line, else nothing.
pub open spec fn line_suffix(line: Option<u32>) -> Seq<char> {
    match line {
        Some(n) => seq![':'] + decimal(n as nat),
        None => Seq::empty(),
    }
}

/// `<time> [<origin><:line> <Severity>] <message>` and a newline.
pub open spec fn plain_line(
    time: Seq<char>,
    origin: Seq<char>,
    line: Option<u32>,
    level: Level,
    message: Seq<char>,
) -> Seq<char> {
    time + seq![' ', '['] + origin + line_suffix(line) + seq![' '] + level.spec_name() + seq![']', ' ']
        + message + seq!['\n']
}

/// The foreground in which a severity's name is shown.
pub open spec fn level_color(level: Level) -> Seq<char> {
    match level {
        Level::Trace => fg_palette(seq!['8']),
        Level::Debug => fg_palette(seq!['7']),
        Level::Info => fg_palette(seq!['1', '2']),
        Level::Warn => fg_palette(seq!['1', '1']),
        Level::Error => fg_palette(seq!['9']),
    }
}

/// Messages of the verbose severities are shown in plain weight, the others in bold.
pub open spec fn message_weight(level: Level) -> Seq<char> {
    match level {
        Level::Trace | Level::Debug => Seq::empty(),
        _ => sgr(seq!['1']),
    }
}

pub open spec fn message_color(level: Level) -> Seq<char> {
    match level {
        Level::Trace | Level::Debug => fg_palette(seq!['7']),
        _ => fg_palette(seq!['1', '5']),
    }
}

/// A stretch of text behind two styling sequences, followed by a full reset.
pub open spec fn region(a: Seq<char>, b: Seq<char>, text: Seq<char>) -> Seq<char> {
    a + b + text + sgr(Seq::empty()) + sgr(seq!['3', '9'])
}

/// The line number in styled form.
pub open spec fn styled_line_suffix(line: Option<u32>) -> Seq<char> {
    match line {
        Some(n) => fg_palette(seq!['8']) + line_suffix(line) + sgr(seq!['3', '9']),
        None => Seq::empty(),
    }
}

/// The plain line with the time, origin, severity and message each in a styled region.
pub open spec fn styled_line(
    time: Seq<char>,
    origin: Seq<char>,
    line: Option<u32>,
    level: Level,
    message: Seq<char>,
) -> Seq<char> {
    region(sgr(seq!['3']), fg_palette(seq!['8']), time) + seq![' ', '[']
        + (fg_palette(seq!['7']) + origin + sgr(seq!['3', '9'])) + styled_line_suffix(line)
        + seq![' '] + region(sgr(seq!['1']), level_color(level), level.spec_name())
        + seq![']', ' '] + region(message_weight(level), message_color(level), message)
        + seq!['\n']
}

/// The line for a record, styled or plain.
pub open spec fn spec_format_line(
    ansi: bool,
    time: Seq<char>,
    origin: Seq<char>,
    line: Option<u32>,
    level: Level,
    message: Seq<char>,
) -> Seq<char> {
    if ansi {
        styled_line(time, origin, line, level, message)
    } else {
        plain_line(time, origin, line, level, message)
    }
}

/// A record as the logger sees it.
pub struct Record {
    pub level: Level,
    pub target: String,
    pub module: Option<String>,
    pub line: Option<u32>,
    pub message: String,
}

impl Record {
    /// The name under which a record's source is shown: its module path if it has
    /// one, else its target.
    pub open spec fn spec_origin(&self) -> Seq<char> {
        match self.module {
            Some(m) => m@,
            None => self.target@,
        }
    }

    pub fn origin(&self) -> (r: &str)
        ensures
            r@ == self.spec_origin(),
    {
        match &self.module {
            Some(m) => m.as_str(),
            None => self.target.as_str(),
        }
    }
}

fn digit_str(d: u32) -> (r: &'static str)
    requires
        d < 10,
    ensures
        r@ == seq![digit_char(d as nat)],
{
    proof {
        reveal_strlit("0");
        reveal_strlit("1");
        reveal_strlit("2");
        reveal_strlit("3");
        reveal_strlit("4");
        reveal_strlit("5");
        reveal_strlit("6");
        reveal_strlit("7");
        reveal_strlit("8");
        reveal_strlit("9");
    }
    let r = if d == 0 { "0" }
    else if d == 1 { "1" }
    else if d == 2 { "2" }
    else if d == 3 { "3" }
    else if d == 4 { "4" }
    else if d == 5 { "5" }
    else if d == 6 { "6" }
    else if d == 7 { "7" }
    else if d == 8 { "8" }
    else { "9" };
    assert(r@ =~= seq![digit_char(d as nat)]);
    r
}

/// Appends the decimal digits of `n`.
pub fn push_decimal(s: &mut String, n: u32)
    ensures
        final(s)@ == old(s)@ + decimal(n as nat),
    decreases n,
{
    if n >= 10 {
        push_decimal(s, n / 10);
    }
    s.append(digit_str(n % 10));
    proof {
        if n >= 10 {
            assert(final(s)@ =~= old(s)@ + decimal(n as nat));
        } else {
            assert(final(s)@ =~= old(s)@ + decimal(n as nat));
        }
    }
}

/// The decimal digits of `n` as a string.
pub fn decimal_string(n: u32) -> (r: String)
    ensures
        r@ == decimal(n as nat),
{
    let mut s = String::new();
    push_decimal(&mut s, n);
    assert(s@ =~= decimal(n as nat));
    s
}

fn level_color_str(level: Level) -> (r: &'static str)
    ensures
        r@ == level_color(level),
{
    match level {
        Level::Trace => fg_light_black(),
        Level::Debug => fg_white(),
        Level::Info => fg_light_blue(),
        Level::Warn => fg_light_yellow(),
        Level::Error => fg_light_red(),
    }
}

fn message_weight_str(level: Level) -> (r: &'static str)
    ensures
        r@ == message_weight(level),
{
    match level {
        Level::Trace | Level::Debug => {
            proof {
                reveal_strlit("");
            }
            assert(""@ =~= Seq::<char>::empty());
            ""
        },
        _ => bold(),
    }
}

fn message_color_str(level: Level) -> (r: &'static str)
    ensures
        r@ == message_color(level),
{
    match level {
        Level::Trace | Level::Debug => fg_white(),
        _ => fg_light_white(),
    }
}

/// Appends `text` behind the styling sequences `a` and `b`, then a full reset.
fn push_region(s: &mut String, a: &str, b: &str, text: &str)
    ensures
        final(s)@ == old(s)@ + region(a@, b@, text@),
{
    s.append(a);
    s.append(b);
    s.append(text);
    s.append(reset_all());
    s.append(fg_reset());
    assert(final(s)@ =~= old(s)@ + region(a@, b@, text@));
}

/// Appends the line number, if any, in plain or styled form.
fn push_line_suffix(s: &mut String, line: Option<u32>, ansi: bool)
    ensures
        final(s)@ == old(s)@ + (if ansi { styled_line_suffix(line) } else { line_suffix(line) }),
{
    proof {
        reveal_strlit(":");
    }
    match line {
        Some(n) => {
            if ansi {
                s.append(fg_light_black());
            }
            s.append(":");
            push_decimal(s, n);
            if ansi {
                s.append(fg_reset());
            }
        },
        None => {},
    }
    assert(final(s)@ =~= old(s)@ + (if ansi { styled_line_suffix(line) } else { line_suffix(line) }));
}

/// Renders a record as one newline-terminated line: plain, or with each of the
/// time, origin, severity and message in its own styled region.
pub fn format_line(
    ansi: bool,
    time: &str,
    origin: &str,
    line: Option<u32>,
    level: Level,
    message: &str,
) -> (r: String)
    ensures
        r@ == spec_format_line(ansi, time@, origin@, line, level, message@),
{
    proof {
        reveal_strlit(" [");
        reveal_strlit(" ");
        reveal_strlit("] ");
        reveal_strlit("\n");
    }
    let mut s = String::new();
    if ansi {
        push_region(&mut s, italic(), fg_light_black(), time);
        s.append(" [");
        s.append(fg_white());
        s.append(origin);
        s.append(fg_reset());
    } else {
        s.append(time);
        s.append(" [");
        s.append(origin);
    }
    push_line_suffix(&mut s, line, ansi);
    s.append(" ");
    if ansi {
        push_region(&mut s, bold(), level_color_str(level), level.name());
    } else {
        s.append(level.name());
    }
    s.append("] ");
    if ansi {
        push_region(&mut s, message_weight_str(level), message_color_str(level), message);
    } else {
        s.append(message);
    }
    s.append("\n");
    assert(s@ =~= spec_format_line(ansi, time@, origin@, line, level, message@));
    s
}

/// Reads `s` as a terminal would show it, dropping every escape sequence: from an
/// escape character through the next `m`. `in_escape` says whether such a sequence
/// has been opened and not yet closed.
pub open spec fn strip_from(s: Seq<char>, in_escape: bool) -> Seq<char>
    decreases s.len(),
{
    if s.len() == 0 {
        Seq::empty()
    } else if in_escape {
        strip_from(s.drop_first(), s[0] != 'm')
    } else if s[0] == '\u{1b}' {
        strip_from(s.drop_first(), true)
    } else {
        seq![s[0]] + strip_from(s.drop_first(), false)
    }
}

/// The text of `s` with its escape sequences removed.
pub open spec fn strip_escapes(s: Seq<char>) -> Seq<char> {
    strip_from(s, false)
}

pub open spec fn lacks(s: Seq<char>, c: char) -> bool {
    forall|i: int| 0 <= i < s.len() ==> s[i] != c
}

/// Whatever follows `e`, stripping `e` first leaves `v`.
pub open spec fn renders_as(e: Seq<char>, v: Seq<char>) -> bool {
    forall|r: Seq<char>| #[trigger] strip_escapes(e + r) == v + strip_escapes(r)
}

proof fn lemma_text_renders(t: Seq<char>, r: Seq<char>)
    requires
        lacks(t, '\u{1b}'),
    ensures
        strip_escapes(t + r) == t + strip_escapes(r),
    decreases t.len(),
{
    if t.len() == 0 {
        assert(t + r =~= r);
        assert(t + strip_escapes(r) =~= strip_escapes(r));
    } else {
        let tr = t + r;
        assert(tr[0] == t[0]);
        assert(tr.drop_first() =~= t.drop_first() + r);
        lemma_text_renders(t.drop_first(), r);
        assert(seq![t[0]] + (t.drop_first() + strip_escapes(r)) =~= t + strip_escapes(r));
    }
}

proof fn lemma_escape_body(b: Seq<char>, r: Seq<char>)
    requires
        lacks(b, 'm'),
    ensures
        strip_from(b + seq!['m'] + r, true) == strip_escapes(r),
    decreases b.len(),
{
    let s = b + seq!['m'] + r;
    if b.len() == 0 {
        assert(s[0] == 'm');
        assert(s.drop_first() =~= r);
    } else {
        assert(s[0] == b[0]);
        assert(s.drop_first() =~= b.drop_first() + seq!['m'] + r);
        lemma_escape_body(b.drop_first(), r);
    }
}

proof fn lemma_text_renders_as(t: Seq<char>)
    requires
        lacks(t, '\u{1b}'),
    ensures
        renders_as(t, t),
{
    assert forall|r: Seq<char>| #[trigger] strip_escapes(t + r) == t + strip_escapes(r) by {
        lemma_text_renders(t, r);
    }
}

proof fn lemma_sgr_renders_as(p: Seq<char>)
    requires
        lacks(p, 'm'),
    ensures
        renders_as(sgr(p), Seq::empty()),
{
    assert forall|r: Seq<char>| #[trigger] strip_escapes(sgr(p) + r) == Seq::<char>::empty() + strip_escapes(r) by {
        let b = seq!['['] + p;
        assert(lacks(b, 'm')) by {
            assert forall|i: int| 0 <= i < b.len() implies b[i] != 'm' by {
                if i > 0 {
                    assert(b[i] == p[i - 1]);
                }
            }
        }
        let s = sgr(p) + r;
        assert(s[0] == '\u{1b}');
        assert(s.drop_first() =~= b + seq!['m'] + r);
        lemma_escape_body(b, r);
        assert(Seq::<char>::empty() + strip_escapes(r) =~= strip_escapes(r));
    }
}

proof fn lemma_empty_renders_as()
    ensures
        renders_as(Seq::empty(), Seq::empty()),
{
    assert forall|r: Seq<char>| #[trigger] strip_escapes(Seq::<char>::empty() + r) == Seq::<char>::empty() + strip_escapes(r) by {
        assert(Seq::<char>::empty() + r =~= r);
        assert(Seq::<char>::empty() + strip_escapes(r) =~= strip_escapes(r));
    }
}

proof fn lemma_concat_renders_as(e1: Seq<char>, v1: Seq<char>, e2: Seq<char>, v2: Seq<char>)
    requires
        renders_as(e1, v1),
        renders_as(e2, v2),
    ensures
        renders_as(e1 + e2, v1 + v2),
{
    assert forall|r: Seq<char>| #[trigger] strip_escapes((e1 + e2) + r) == (v1 + v2) + strip_escapes(r) by {
        assert((e1 + e2) + r =~= e1 + (e2 + r));
        assert(strip_escapes(e1 + (e2 + r)) == v1 + strip_escapes(e2 + r));
        assert(strip_escapes(e2 + r) == v2 + strip_escapes(r));
        assert(v1 + (v2 + strip_escapes(r)) =~= (v1 + v2) + strip_escapes(r));
    }
}

proof fn lemma_digits_lack_escape(n: nat)
    ensures
        lacks(decimal(n), '\u{1b}'),
    decreases n,
{
    if n >= 10 {
        lemma_digits_lack_escape(n / 10);
    }
}

proof fn lemma_region_renders_as(a: Seq<char>, pa: Seq<char>, b: Seq<char>, pb: Seq<char>, t: Seq<char>)
    requires
        a == sgr(pa) || a == Seq::<char>::empty(),
        b == sgr(pb),
        lacks(pa, 'm'),
        lacks(pb, 'm'),
        lacks(t, '\u{1b}'),
    ensures
        renders_as(region(a, b, t), t),
{
    if a == sgr(pa) {
        lemma_sgr_renders_as(pa);
    } else {
        lemma_empty_renders_as();
    }
    lemma_sgr_renders_as(pb);
    lemma_text_renders_as(t);
    lemma_sgr_renders_as(Seq::empty());
    lemma_sgr_renders_as(seq!['3', '9']);
    let e = Seq::<char>::empty();
    lemma_concat_renders_as(a, e, b, e);
    lemma_concat_renders_as(a + b, e + e, t, t);
    lemma_concat_renders_as(a + b + t, e + e + t, sgr(Seq::empty()), e);
    lemma_concat_renders_as(a + b + t + sgr(Seq::empty()), e + e + t + e, sgr(seq!['3', '9']), e);
    assert(e + e + t + e + e =~= t);
}

/// Styling never changes what a line says: with its escape sequences removed, the
/// styled line is the plain line, provided the time, origin and message hold no
/// escape character of their own.
pub proof fn law_styling_preserves_text(
    time: Seq<char>,
    origin: Seq<char>,
    line: Option<u32>,
    level: Level,
    message: Seq<char>,
)
    requires
        lacks(time, '\u{1b}'),
        lacks(origin, '\u{1b}'),
        lacks(message, '\u{1b}'),
    ensures
        strip_escapes(styled_line(time, origin, line, level, message))
            == plain_line(time, origin, line, level, message),
{
    let e = Seq::<char>::empty();
    let p8 = seq!['3', '8', ';', '5', ';'] + seq!['8'];
    let p7 = seq!['3', '8', ';', '5', ';'] + seq!['7'];
    let p12 = seq!['3', '8', ';', '5', ';'] + seq!['1', '2'];
    let p11 = seq!['3', '8', ';', '5', ';'] + seq!['1', '1'];
    let p9 = seq!['3', '8', ';', '5', ';'] + seq!['9'];
    let p15 = seq!['3', '8', ';', '5', ';'] + seq!['1', '5'];
    let p39 = seq!['3', '9'];
    assert(lacks(p8, 'm') && lacks(p7, 'm') && lacks(p12, 'm') && lacks(p11, 'm')) by {
        assert(p8 =~= seq!['3', '8', ';', '5', ';', '8']);
        assert(p7 =~= seq!['3', '8', ';', '5', ';', '7']);
        assert(p12 =~= seq!['3', '8', ';', '5', ';', '1', '2']);
        assert(p11 =~= seq!['3', '8', ';', '5', ';', '1', '1']);
    }
    assert(lacks(p9, 'm') && lacks(p15, 'm')) by {
        assert(p9 =~= seq!['3', '8', ';', '5', ';', '9']);
        assert(p15 =~= seq!['3', '8', ';', '5', ';', '1', '5']);
    }
    let lc = match level {
        Level::Trace => p8,
        Level::Debug => p7,
        Level::Info => p12,
        Level::Warn => p11,
        Level::Error => p9,
    };
    let mc = match level {
        Level::Trace | Level::Debug => p7,
        _ => p15,
    };
    let name = level.spec_name();
    assert(lacks(name, '\u{1b}'));
    let open_br = seq![' ', '['];
    let sp = seq![' '];
    let close_br = seq![']', ' '];
    let nl = seq!['\n'];
    lemma_text_renders_as(open_br);
    lemma_text_renders_as(sp);
    lemma_text_renders_as(close_br);
    lemma_text_renders_as(nl);
    lemma_region_renders_as(sgr(seq!['3']), seq!['3'], fg_palette(seq!['8']), p8, time);
    lemma_region_renders_as(sgr(seq!['1']), seq!['1'], level_color(level), lc, name);
    lemma_region_renders_as(message_weight(level), seq!['1'], message_color(level), mc, message);
    // the origin
    lemma_sgr_renders_as(p7);
    lemma_sgr_renders_as(p8);
    lemma_sgr_renders_as(p39);
    lemma_text_renders_as(origin);
    lemma_concat_renders_as(fg_palette(seq!['7']), e, origin, origin);
    lemma_concat_renders_as(fg_palette(seq!['7']) + origin, e + origin, sgr(p39), e);
    assert(e + origin + e =~= origin);
    let o = fg_palette(seq!['7']) + origin + sgr(p39);
    // the line number
    let suffix = line_suffix(line);
    let ssuffix = styled_line_suffix(line);
    assert(renders_as(ssuffix, suffix)) by {
        match line {
            Some(n) => {
                lemma_digits_lack_escape(n as nat);
                assert(lacks(suffix, '\u{1b}')) by {
                    assert forall|i: int| 0 <= i < suffix.len() implies suffix[i] != '\u{1b}' by {
                        if i > 0 {
                            assert(suffix[i] == decimal(n as nat)[i - 1]);
                        }
                    }
                }
                lemma_text_renders_as(suffix);
                lemma_concat_renders_as(fg_palette(seq!['8']), e, suffix, suffix);
                lemma_concat_renders_as(fg_palette(seq!['8']) + suffix, e + suffix, sgr(p39), e);
                assert(e + suffix + e =~= suffix);
            },
            None => {
                lemma_empty_renders_as();
            },
        }
    }
    let r1 = region(sgr(seq!['3']), fg_palette(seq!['8']), time);
    let r2 = region(sgr(seq!['1']), level_color(level), name);
    let r3 = region(message_weight(level), message_color(level), message);
    lemma_concat_renders_as(r1, time, open_br, open_br);
    lemma_concat_renders_as(r1 + open_br, time + open_br, o, origin);
    lemma_concat_renders_as(r1 + open_br + o, time + open_br + origin, ssuffix, suffix);
    lemma_concat_renders_as(r1 + open_br + o + ssuffix, time + open_br + origin + suffix, sp, sp);
    let a5 = r1 + open_br + o + ssuffix + sp;
    let v5 = time + open_br + origin + suffix + sp;
    lemma_concat_renders_as(a5, v5, r2, name);
    lemma_concat_renders_as(a5 + r2, v5 + name, close_br, close_br);
    lemma_concat_renders_as(a5 + r2 + close_br, v5 + name + close_br, r3, message);
    lemma_concat_renders_as(a5 + r2 + close_br + r3, v5 + name + close_br + message, nl, nl);
    let styled = styled_line(time, origin, line, level, message);
    let plain = plain_line(time, origin, line, level, message);
    assert(styled == a5 + r2 + close_br + r3 + nl);
    assert(plain == v5 + name + close_br + message + nl);
    assert(strip_escapes(styled + e) == plain + strip_escapes(e));
    assert(styled + e =~= styled);
    assert(plain + e =~= plain);
}

} // verus!
