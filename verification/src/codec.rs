use vstd::prelude::*;
use vstd::string::StrSliceExecFns;
use vstd::string::StringExecFns;

use crate::model::{patterns_view, BackupFilePattern, Settings, SpecPattern, SpecSettings};

verus! {

// The persisted settings file is one structured text value: an object with
// the five schema fields in a fixed order, strings quoted with `\"` and `\\`
// escapes and `\u00XX` escapes for characters below the space character, and
// the two small counters as plain decimal numbers.  Rendering and parsing
// are defined here at the level of character sequences; every configuration
// renders, and parsing the rendered text finds it back.
#[verifier::opaque]
pub open spec fn hex_char(d: int) -> char {
    if d == 0 {
        '0'
    } else if d == 1 {
        '1'
    } else if d == 2 {
        '2'
    } else if d == 3 {
        '3'
    } else if d == 4 {
        '4'
    } else if d == 5 {
        '5'
    } else if d == 6 {
        '6'
    } else if d == 7 {
        '7'
    } else if d == 8 {
        '8'
    } else if d == 9 {
        '9'
    } else if d == 10 {
        'a'
    } else if d == 11 {
        'b'
    } else if d == 12 {
        'c'
    } else if d == 13 {
        'd'
    } else if d == 14 {
        'e'
    } else {
        'f'
    }
}

#[verifier::opaque]
pub open spec fn is_hex(c: char) -> bool {
    ||| c == '0' || c == '1' || c == '2' || c == '3' || c == '4' || c == '5' || c == '6' || c == '7'
        || c == '8' || c == '9'
    ||| c == 'a' || c == 'b' || c == 'c' || c == 'd' || c == 'e' || c == 'f'
    ||| c == 'A' || c == 'B' || c == 'C' || c == 'D' || c == 'E' || c == 'F'
}

#[verifier::opaque]
pub open spec fn hex_val(c: char) -> int {
    if c == '0' {
        0
    } else if c == '1' {
        1
    } else if c == '2' {
        2
    } else if c == '3' {
        3
    } else if c == '4' {
        4
    } else if c == '5' {
        5
    } else if c == '6' {
        6
    } else if c == '7' {
        7
    } else if c == '8' {
        8
    } else if c == '9' {
        9
    } else if c == 'a' || c == 'A' {
        10
    } else if c == 'b' || c == 'B' {
        11
    } else if c == 'c' || c == 'C' {
        12
    } else if c == 'd' || c == 'D' {
        13
    } else if c == 'e' || c == 'E' {
        14
    } else {
        15
    }
}

pub open spec fn esc_char(c: char) -> Seq<char> {
    if c == '"' || c == '\\' {
        seq!['\\', c]
    } else if (c as u32) < 32 {
        seq!['\\', 'u', '0', '0', hex_char(c as u32 as int / 16), hex_char(c as u32 as int % 16)]
    } else {
        seq![c]
    }
}

/// The one-letter escapes that other writers of this format use for common
/// control characters; rendering always uses the `\u00XX` form instead.
#[verifier::opaque]
pub open spec fn is_short_escape(c: char) -> bool {
    c == 't' || c == 'n' || c == 'r' || c == 'b' || c == 'f' || c == '/'
}

#[verifier::opaque]
pub open spec fn short_escape_char(c: char) -> char {
    if c == 't' {
        '\t'
    } else if c == 'n' {
        '\n'
    } else if c == 'r' {
        '\r'
    } else if c == 'b' {
        '\u{8}'
    } else if c == 'f' {
        '\u{c}'
    } else {
        '/'
    }
}

pub open spec fn esc(s: Seq<char>) -> Seq<char>
    decreases s.len(),
{
    if s.len() == 0 {
        Seq::empty()
    } else {
        esc_char(s[0]) + esc(s.drop_first())
    }
}

pub open spec fn render_string(s: Seq<char>) -> Seq<char> {
    seq!['"'] + esc(s) + seq!['"']
}

pub open spec fn digit_char(d: int) -> char {
    if d == 0 {
        '0'
    } else if d == 1 {
        '1'
    } else if d == 2 {
        '2'
    } else if d == 3 {
        '3'
    } else if d == 4 {
        '4'
    } else if d == 5 {
        '5'
    } else if d == 6 {
        '6'
    } else if d == 7 {
        '7'
    } else if d == 8 {
        '8'
    } else {
        '9'
    }
}

pub open spec fn is_digit(c: char) -> bool {
    c == '0' || c == '1' || c == '2' || c == '3' || c == '4' || c == '5' || c == '6' || c == '7'
        || c == '8' || c == '9'
}

pub open spec fn digit_val(c: char) -> int {
    if c == '0' {
        0
    } else if c == '1' {
        1
    } else if c == '2' {
        2
    } else if c == '3' {
        3
    } else if c == '4' {
        4
    } else if c == '5' {
        5
    } else if c == '6' {
        6
    } else if c == '7' {
        7
    } else if c == '8' {
        8
    } else {
        9
    }
}

pub open spec fn render_u8(n: u8) -> Seq<char> {
    if n < 10 {
        seq![digit_char(n as int)]
    } else if n < 100 {
        seq![digit_char(n as int / 10), digit_char(n as int % 10)]
    } else {
        seq![
            digit_char(n as int / 100),
            digit_char((n as int / 10) % 10),
            digit_char(n as int % 10),
        ]
    }
}

pub open spec fn lit_head() -> Seq<char> {
    "{\"settings_version\":"@
}

pub open spec fn lit_patterns() -> Seq<char> {
    ",\"backup_patterns\":"@
}

pub open spec fn lit_dest() -> Seq<char> {
    ",\"backup_dest_path\":"@
}

pub open spec fn lit_count() -> Seq<char> {
    ",\"backup_count\":"@
}

pub open spec fn lit_delay() -> Seq<char> {
    ",\"backup_delay_sec\":"@
}

pub open spec fn lit_pat_open() -> Seq<char> {
    "{\"source_dir\":"@
}

pub open spec fn lit_pat_mid() -> Seq<char> {
    ",\"filename_pattern\":"@
}

pub open spec fn render_pattern(p: SpecPattern) -> Seq<char> {
    lit_pat_open() + render_string(p.source_dir) + lit_pat_mid() + render_string(
        p.filename_pattern,
    ) + seq!['}']
}

pub open spec fn render_patterns_tail(ps: Seq<SpecPattern>) -> Seq<char>
    decreases ps.len(),
{
    if ps.len() == 0 {
        Seq::empty()
    } else {
        seq![','] + render_pattern(ps[0]) + render_patterns_tail(ps.drop_first())
    }
}

pub open spec fn render_patterns(ps: Seq<SpecPattern>) -> Seq<char> {
    if ps.len() == 0 {
        seq!['[', ']']
    } else {
        seq!['['] + render_pattern(ps[0]) + render_patterns_tail(ps.drop_first()) + seq![']']
    }
}

/// The persisted text of a configuration.
pub open spec fn spec_render(v: SpecSettings) -> Seq<char> {
    lit_head() + render_string(v.settings_version) + lit_patterns() + render_patterns(
        v.backup_patterns,
    ) + lit_dest() + render_string(v.backup_dest_path) + lit_count() + render_u8(v.backup_count)
        + lit_delay() + render_u8(v.backup_delay_sec) + seq!['}']
}

// --- the strict parser, one partial function per grammar component; each
// --- returns the parsed value and the index just past it.
pub open spec fn p_lit(s: Seq<char>, i: int, lit: Seq<char>) -> Option<int> {
    if 0 <= i && i + lit.len() <= s.len() && s.subrange(i, i + lit.len()) == lit {
        Some(i + lit.len())
    } else {
        None
    }
}

pub open spec fn p_string_body(s: Seq<char>, i: int) -> Option<(Seq<char>, int)>
    decreases s.len() - i,
{
    if i < 0 || i >= s.len() {
        None
    } else if s[i] == '"' {
        Some((Seq::empty(), i + 1))
    } else if s[i] == '\\' {
        if i + 1 < s.len() && (s[i + 1] == '"' || s[i + 1] == '\\') {
            match p_string_body(s, i + 2) {
                Some((t, j)) => Some((seq![s[i + 1]] + t, j)),
                None => None,
            }
        } else if i + 1 < s.len() && is_short_escape(s[i + 1]) {
            match p_string_body(s, i + 2) {
                Some((t, j)) => Some((seq![short_escape_char(s[i + 1])] + t, j)),
                None => None,
            }
        } else if i + 5 < s.len() && s[i + 1] == 'u' && is_hex(s[i + 2]) && is_hex(s[i + 3])
            && is_hex(s[i + 4]) && is_hex(s[i + 5]) {
            let code = 4096 * hex_val(s[i + 2]) + 256 * hex_val(s[i + 3]) + 16 * hex_val(s[i + 4])
                + hex_val(s[i + 5]);
            if code < 32 {
                match p_string_body(s, i + 6) {
                    Some((t, j)) => Some((seq![code as char] + t, j)),
                    None => None,
                }
            } else {
                None
            }
        } else {
            None
        }
    } else if (s[i] as u32) < 32 {
        None
    } else {
        match p_string_body(s, i + 1) {
            Some((t, j)) => Some((seq![s[i]] + t, j)),
            None => None,
        }
    }
}

pub open spec fn p_string(s: Seq<char>, i: int) -> Option<(Seq<char>, int)> {
    if 0 <= i < s.len() && s[i] == '"' {
        p_string_body(s, i + 1)
    } else {
        None
    }
}

pub open spec fn p_u8(s: Seq<char>, i: int) -> Option<(u8, int)> {
    if !(0 <= i < s.len() && is_digit(s[i])) {
        None
    } else if i + 1 < s.len() && is_digit(s[i + 1]) {
        if s[i] == '0' {
            None
        } else if i + 2 < s.len() && is_digit(s[i + 2]) {
            if i + 3 < s.len() && is_digit(s[i + 3]) {
                None
            } else {
                let v = 100 * digit_val(s[i]) + 10 * digit_val(s[i + 1]) + digit_val(s[i + 2]);
                if v <= 255 {
                    Some((v as u8, i + 3))
                } else {
                    None
                }
            }
        } else {
            Some(((10 * digit_val(s[i]) + digit_val(s[i + 1])) as u8, i + 2))
        }
    } else {
        Some((digit_val(s[i]) as u8, i + 1))
    }
}

pub open spec fn p_pattern(s: Seq<char>, i: int) -> Option<(SpecPattern, int)> {
    match p_lit(s, i, lit_pat_open()) {
        None => None,
        Some(j1) => match p_string(s, j1) {
            None => None,
            Some((src, j2)) => match p_lit(s, j2, lit_pat_mid()) {
                None => None,
                Some(j3) => match p_string(s, j3) {
                    None => None,
                    Some((pat, j4)) => match p_lit(s, j4, seq!['}']) {
                        None => None,
                        Some(j5) => Some(
                            (SpecPattern { source_dir: src, filename_pattern: pat }, j5),
                        ),
                    },
                },
            },
        },
    }
}

pub open spec fn p_patterns_tail(s: Seq<char>, i: int, fuel: nat) -> Option<
    (Seq<SpecPattern>, int),
>
    decreases fuel,
{
    if 0 <= i < s.len() && s[i] == ']' {
        Some((Seq::empty(), i + 1))
    } else if 0 <= i < s.len() && s[i] == ',' && fuel > 0 {
        match p_pattern(s, i + 1) {
            None => None,
            Some((p, j)) => match p_patterns_tail(s, j, (fuel - 1) as nat) {
                None => None,
                Some((ps, k)) => Some((seq![p] + ps, k)),
            },
        }
    } else {
        None
    }
}

pub open spec fn p_patterns(s: Seq<char>, i: int, fuel: nat) -> Option<(Seq<SpecPattern>, int)> {
    if !(0 <= i < s.len() && s[i] == '[') {
        None
    } else if i + 1 < s.len() && s[i + 1] == ']' {
        Some((Seq::empty(), i + 2))
    } else {
        match p_pattern(s, i + 1) {
            None => None,
            Some((p, j)) => match p_patterns_tail(s, j, fuel) {
                None => None,
                Some((ps, k)) => Some((seq![p] + ps, k)),
            },
        }
    }
}

/// The configuration a persisted text denotes, if it is well formed.
pub open spec fn spec_parse(s: Seq<char>) -> Option<SpecSettings> {
    match p_lit(s, 0, lit_head()) {
        None => None,
        Some(j1) => match p_string(s, j1) {
            None => None,
            Some((version, j2)) => match p_lit(s, j2, lit_patterns()) {
                None => None,
                Some(j3) => match p_patterns(s, j3, s.len()) {
                    None => None,
                    Some((ps, j4)) => match p_lit(s, j4, lit_dest()) {
                        None => None,
                        Some(j5) => match p_string(s, j5) {
                            None => None,
                            Some((dest, j6)) => match p_lit(s, j6, lit_count()) {
                                None => None,
                                Some(j7) => match p_u8(s, j7) {
                                    None => None,
                                    Some((count, j8)) => match p_lit(s, j8, lit_delay()) {
                                        None => None,
                                        Some(j9) => match p_u8(s, j9) {
                                            None => None,
                                            Some((delay, j10)) => if j10 + 1 == s.len() && s[j10]
                                                == '}' {
                                                Some(
                                                    SpecSettings {
                                                        settings_version: version,
                                                        backup_patterns: ps,
                                                        backup_dest_path: dest,
                                                        backup_count: count,
                                                        backup_delay_sec: delay,
                                                    },
                                                )
                                            } else {
                                                None
                                            },
                                        },
                                    },
                                },
                            },
                        },
                    },
                },
            },
        },
    }
}

// --- round trip: parsing a rendered component finds the component back.
proof fn lemma_hex_facts()
    ensures
        forall|d: int|
            0 <= d < 16 ==> is_hex(#[trigger] hex_char(d)) && hex_val(hex_char(d)) == d,
        is_hex('0') && hex_val('0') == 0,
{
    reveal(hex_char);
    reveal(is_hex);
    reveal(hex_val);
}

proof fn lemma_p_string_body(x: Seq<char>, pre: Seq<char>, suf: Seq<char>)
    ensures
        p_string_body(pre + esc(x) + seq!['"'] + suf, pre.len() as int) == Some(
            (x, (pre.len() + esc(x).len() + 1) as int),
        ),
    decreases x.len(),
{
    reveal(is_short_escape);
    let s = pre + esc(x) + seq!['"'] + suf;
    let i = pre.len() as int;
    if x.len() == 0 {
        assert(esc(x) =~= Seq::<char>::empty());
        assert(s[i] == '"');
        assert(p_string_body(s, i) == Some((Seq::<char>::empty(), i + 1)));
    } else {
        let c = x[0];
        let rest = x.drop_first();
        assert(esc(x) == esc_char(c) + esc(rest));
        if c == '"' || c == '\\' {
            assert(esc_char(c) =~= seq!['\\', c]);
            assert(s[i] == '\\');
            assert(s[i + 1] == c);
            let pre2 = pre + seq!['\\', c];
            assert(s =~= pre2 + esc(rest) + seq!['"'] + suf);
            lemma_p_string_body(rest, pre2, suf);
            assert(p_string_body(s, i + 2) == Some((rest, (pre2.len() + esc(rest).len() + 1) as int)));
            assert(s[i] != '"');
            assert(seq![s[i + 1]] + rest =~= x);
            assert(pre2.len() + esc(rest).len() + 1 == pre.len() + esc(x).len() + 1);
        } else if (c as u32) < 32 {
            lemma_hex_facts();
            let code = c as u32 as int;
            let hi = code / 16;
            let lo = code % 16;
            assert(esc_char(c) =~= seq!['\\', 'u', '0', '0', hex_char(hi), hex_char(lo)]);
            assert(s[i] == '\\');
            assert(s[i + 1] == 'u');
            assert(s[i + 2] == '0');
            assert(s[i + 3] == '0');
            assert(s[i + 4] == hex_char(hi));
            assert(s[i + 5] == hex_char(lo));
            assert(4096 * hex_val(s[i + 2]) + 256 * hex_val(s[i + 3]) + 16 * hex_val(s[i + 4])
                + hex_val(s[i + 5]) == code);
            vstd::utf8::char_u32_cast(c, c as u32);
            assert((code as char) == c);
            let pre2 = pre + esc_char(c);
            assert(s =~= pre2 + esc(rest) + seq!['"'] + suf);
            lemma_p_string_body(rest, pre2, suf);
            assert(p_string_body(s, i + 6) == Some((rest, (pre2.len() + esc(rest).len() + 1) as int)));
            assert(seq![code as char] + rest =~= x);
            assert(pre2.len() + esc(rest).len() + 1 == pre.len() + esc(x).len() + 1);
        } else {
            assert(esc_char(c) =~= seq![c]);
            assert(s[i] == c);
            let pre2 = pre + seq![c];
            assert(s =~= pre2 + esc(rest) + seq!['"'] + suf);
            lemma_p_string_body(rest, pre2, suf);
            assert(p_string_body(s, i + 1) == Some((rest, (pre2.len() + esc(rest).len() + 1) as int)));
            assert(seq![s[i]] + rest =~= x);
            assert(pre2.len() + esc(rest).len() + 1 == pre.len() + esc(x).len() + 1);
        }
    }
}

proof fn lemma_p_string(x: Seq<char>, pre: Seq<char>, suf: Seq<char>)
    ensures
        p_string(pre + render_string(x) + suf, pre.len() as int) == Some(
            (x, (pre.len() + render_string(x).len()) as int),
        ),
{
    let s = pre + render_string(x) + suf;
    let i = pre.len() as int;
    assert(s[i] == '"');
    let pre2 = pre + seq!['"'];
    assert(s =~= pre2 + esc(x) + seq!['"'] + suf);
    lemma_p_string_body(x, pre2, suf);
    assert(p_string_body(s, i + 1) == Some((x, (pre2.len() + esc(x).len() + 1) as int)));
    assert(pre2.len() + esc(x).len() + 1 == pre.len() + render_string(x).len());
}

proof fn lemma_digit_facts()
    ensures
        forall|d: int|
            0 <= d < 10 ==> is_digit(#[trigger] digit_char(d)) && digit_val(digit_char(d)) == d && (
            digit_char(d) == '0' <==> d == 0),
{
}

proof fn lemma_p_u8(n: u8, pre: Seq<char>, suf: Seq<char>)
    requires
        suf.len() > 0,
        !is_digit(suf[0]),
    ensures
        p_u8(pre + render_u8(n) + suf, pre.len() as int) == Some(
            (n, (pre.len() + render_u8(n).len()) as int),
        ),
{
    lemma_digit_facts();
    let s = pre + render_u8(n) + suf;
    let i = pre.len() as int;
    if n < 10 {
        assert(s[i] == digit_char(n as int));
        assert(s[i + 1] == suf[0]);
        assert(p_u8(s, i) == Some((n, i + 1)));
    } else if n < 100 {
        assert(s[i] == digit_char(n as int / 10));
        assert(s[i + 1] == digit_char(n as int % 10));
        assert(s[i + 2] == suf[0]);
        assert(n as int / 10 != 0);
        assert(10 * (n as int / 10) + n as int % 10 == n as int);
        assert(p_u8(s, i) == Some((n, i + 2)));
    } else {
        assert(s[i] == digit_char(n as int / 100));
        assert(s[i + 1] == digit_char((n as int / 10) % 10));
        assert(s[i + 2] == digit_char(n as int % 10));
        assert(s[i + 3] == suf[0]);
        assert(n as int / 100 != 0);
        assert(100 * (n as int / 100) + 10 * ((n as int / 10) % 10) + n as int % 10 == n as int);
        assert(p_u8(s, i) == Some((n, i + 3)));
    }
}

proof fn lemma_lit_at(s: Seq<char>, pre: Seq<char>, lit: Seq<char>, suf: Seq<char>)
    requires
        s == pre + lit + suf,
    ensures
        p_lit(s, pre.len() as int, lit) == Some((pre.len() + lit.len()) as int),
{
    assert(s.subrange(pre.len() as int, pre.len() + lit.len() as int) =~= lit);
}

#[verifier::rlimit(100)]
proof fn lemma_p_pattern(p: SpecPattern, pre: Seq<char>, suf: Seq<char>)
    ensures
        p_pattern(pre + render_pattern(p) + suf, pre.len() as int) == Some(
            (p, (pre.len() + render_pattern(p).len()) as int),
        ),
{
    let s = pre + render_pattern(p) + suf;
    let i = pre.len() as int;
    let r1 = render_string(p.source_dir);
    let r2 = render_string(p.filename_pattern);
    let pre1 = pre + lit_pat_open();
    let pre2 = pre1 + r1;
    let pre3 = pre2 + lit_pat_mid();
    let pre4 = pre3 + r2;
    assert(s =~= pre + lit_pat_open() + (r1 + lit_pat_mid() + r2 + seq!['}'] + suf));
    lemma_lit_at(s, pre, lit_pat_open(), r1 + lit_pat_mid() + r2 + seq!['}'] + suf);
    assert(s =~= pre1 + r1 + (lit_pat_mid() + r2 + seq!['}'] + suf));
    lemma_p_string(p.source_dir, pre1, lit_pat_mid() + r2 + seq!['}'] + suf);
    assert(s =~= pre2 + lit_pat_mid() + (r2 + seq!['}'] + suf));
    lemma_lit_at(s, pre2, lit_pat_mid(), r2 + seq!['}'] + suf);
    assert(s =~= pre3 + r2 + (seq!['}'] + suf));
    lemma_p_string(p.filename_pattern, pre3, seq!['}'] + suf);
    assert(s =~= pre4 + seq!['}'] + suf);
    lemma_lit_at(s, pre4, seq!['}'], suf);
    assert(p_pattern(s, i) == Some((p, (pre4.len() + 1) as int)));
    assert(pre4.len() + 1 == pre.len() + render_pattern(p).len());
}

#[verifier::rlimit(100)]
proof fn lemma_p_patterns_tail(ps: Seq<SpecPattern>, pre: Seq<char>, suf: Seq<char>, fuel: nat)
    requires
        fuel >= ps.len(),
    ensures
        p_patterns_tail(pre + render_patterns_tail(ps) + seq![']'] + suf, pre.len() as int, fuel)
            == Some((ps, (pre.len() + render_patterns_tail(ps).len() + 1) as int)),
    decreases ps.len(),
{
    let s = pre + render_patterns_tail(ps) + seq![']'] + suf;
    let i = pre.len() as int;
    if ps.len() == 0 {
        assert(render_patterns_tail(ps) =~= Seq::<char>::empty());
        assert(s[i] == ']');
        assert(p_patterns_tail(s, i, fuel) == Some((Seq::<SpecPattern>::empty(), i + 1)));
        assert(ps =~= Seq::<SpecPattern>::empty());
    } else {
        let p0 = ps[0];
        let rest = ps.drop_first();
        assert(render_patterns_tail(ps) == seq![','] + render_pattern(p0) + render_patterns_tail(
            rest,
        ));
        assert(s[i] == ',');
        assert(s[i] != ']');
        let pre1 = pre + seq![','];
        assert(s =~= pre1 + render_pattern(p0) + (render_patterns_tail(rest) + seq![']'] + suf));
        lemma_p_pattern(p0, pre1, render_patterns_tail(rest) + seq![']'] + suf);
        let j: int = pre1.len() + render_pattern(p0).len() as int;
        assert(p_pattern(s, i + 1) == Some((p0, j)));
        let pre2 = pre1 + render_pattern(p0);
        assert(s =~= pre2 + render_patterns_tail(rest) + seq![']'] + suf);
        lemma_p_patterns_tail(rest, pre2, suf, (fuel - 1) as nat);
        assert(p_patterns_tail(s, j, (fuel - 1) as nat) == Some(
            (rest, (pre2.len() + render_patterns_tail(rest).len() + 1) as int),
        ));
        assert(seq![p0] + rest =~= ps);
        assert(pre2.len() + render_patterns_tail(rest).len() + 1 == pre.len()
            + render_patterns_tail(ps).len() + 1);
    }
}

#[verifier::rlimit(100)]
proof fn lemma_p_patterns(ps: Seq<SpecPattern>, pre: Seq<char>, suf: Seq<char>, fuel: nat)
    requires
        fuel >= ps.len(),
    ensures
        p_patterns(pre + render_patterns(ps) + suf, pre.len() as int, fuel) == Some(
            (ps, (pre.len() + render_patterns(ps).len()) as int),
        ),
{
    let s = pre + render_patterns(ps) + suf;
    let i = pre.len() as int;
    if ps.len() == 0 {
        assert(render_patterns(ps) =~= seq!['[', ']']);
        assert(s[i] == '[');
        assert(s[i + 1] == ']');
        assert(p_patterns(s, i, fuel) == Some((Seq::<SpecPattern>::empty(), i + 2)));
        assert(ps =~= Seq::<SpecPattern>::empty());
    } else {
        let p0 = ps[0];
        let rest = ps.drop_first();
        assert(render_patterns(ps) == seq!['['] + render_pattern(p0) + render_patterns_tail(rest)
            + seq![']']);
        assert(s[i] == '[');
        reveal_strlit("{\"source_dir\":");
        assert(lit_pat_open().len() == 14);
        assert(lit_pat_open()[0] == '{');
        assert(render_pattern(p0)[0] == '{');
        assert(s[i + 1] == '{');
        assert(s[i + 1] != ']');
        let pre1 = pre + seq!['['];
        assert(s =~= pre1 + render_pattern(p0) + (render_patterns_tail(rest) + seq![']'] + suf));
        lemma_p_pattern(p0, pre1, render_patterns_tail(rest) + seq![']'] + suf);
        let j: int = pre1.len() + render_pattern(p0).len() as int;
        let pre2 = pre1 + render_pattern(p0);
        assert(s =~= pre2 + render_patterns_tail(rest) + seq![']'] + suf);
        lemma_p_patterns_tail(rest, pre2, suf, fuel);
        assert(p_patterns_tail(s, j, fuel) == Some(
            (rest, (pre2.len() + render_patterns_tail(rest).len() + 1) as int),
        ));
        assert(seq![p0] + rest =~= ps);
        assert(pre2.len() + render_patterns_tail(rest).len() + 1 == pre.len() + render_patterns(
            ps,
        ).len());
    }
}

proof fn lemma_render_patterns_tail_len(ps: Seq<SpecPattern>)
    ensures
        render_patterns_tail(ps).len() >= ps.len(),
    decreases ps.len(),
{
    if ps.len() > 0 {
        lemma_render_patterns_tail_len(ps.drop_first());
    }
}

proof fn lemma_render_patterns_len(ps: Seq<SpecPattern>)
    ensures
        render_patterns(ps).len() >= ps.len(),
{
    if ps.len() > 0 {
        lemma_render_patterns_tail_len(ps.drop_first());
    }
}

// Positions of the component boundaries inside the rendered text.
spec fn pos0(v: SpecSettings) -> int {
    lit_head().len() as int
}

spec fn pos1(v: SpecSettings) -> int {
    pos0(v) + render_string(v.settings_version).len()
}

spec fn pos2(v: SpecSettings) -> int {
    pos1(v) + lit_patterns().len()
}

spec fn pos3(v: SpecSettings) -> int {
    pos2(v) + render_patterns(v.backup_patterns).len()
}

spec fn pos4(v: SpecSettings) -> int {
    pos3(v) + lit_dest().len()
}

spec fn pos5(v: SpecSettings) -> int {
    pos4(v) + render_string(v.backup_dest_path).len()
}

spec fn pos6(v: SpecSettings) -> int {
    pos5(v) + lit_count().len()
}

spec fn pos7(v: SpecSettings) -> int {
    pos6(v) + render_u8(v.backup_count).len()
}

spec fn pos8(v: SpecSettings) -> int {
    pos7(v) + lit_delay().len()
}

spec fn pos9(v: SpecSettings) -> int {
    pos8(v) + render_u8(v.backup_delay_sec).len()
}

spec fn seg_tail3(v: SpecSettings) -> Seq<char> {
    lit_delay() + render_u8(v.backup_delay_sec) + seq!['}']
}

spec fn seg_tail2(v: SpecSettings) -> Seq<char> {
    lit_count() + render_u8(v.backup_count) + seg_tail3(v)
}

spec fn seg_tail1(v: SpecSettings) -> Seq<char> {
    lit_dest() + render_string(v.backup_dest_path) + seg_tail2(v)
}

proof fn lemma_step_head(v: SpecSettings)
    ensures
        p_lit(spec_render(v), 0, lit_head()) == Some(pos0(v)),
{
    let s = spec_render(v);
    let rest = render_string(v.settings_version) + lit_patterns() + render_patterns(
        v.backup_patterns,
    ) + seg_tail1(v);
    assert(s =~= Seq::<char>::empty() + lit_head() + rest);
    lemma_lit_at(s, Seq::empty(), lit_head(), rest);
}

proof fn lemma_step_version(v: SpecSettings)
    ensures
        p_string(spec_render(v), pos0(v)) == Some((v.settings_version, pos1(v))),
{
    let s = spec_render(v);
    let rest = lit_patterns() + render_patterns(v.backup_patterns) + seg_tail1(v);
    assert(s =~= lit_head() + render_string(v.settings_version) + rest);
    lemma_p_string(v.settings_version, lit_head(), rest);
}

proof fn lemma_step_lit_patterns(v: SpecSettings)
    ensures
        p_lit(spec_render(v), pos1(v), lit_patterns()) == Some(pos2(v)),
{
    let s = spec_render(v);
    let pre = lit_head() + render_string(v.settings_version);
    let rest = render_patterns(v.backup_patterns) + seg_tail1(v);
    assert(s =~= pre + lit_patterns() + rest);
    lemma_lit_at(s, pre, lit_patterns(), rest);
}

proof fn lemma_step_patterns(v: SpecSettings)
    ensures
        p_patterns(spec_render(v), pos2(v), spec_render(v).len()) == Some(
            (v.backup_patterns, pos3(v)),
        ),
{
    let s = spec_render(v);
    let pre = lit_head() + render_string(v.settings_version) + lit_patterns();
    let rest = seg_tail1(v);
    assert(s =~= pre + render_patterns(v.backup_patterns) + rest);
    lemma_render_patterns_len(v.backup_patterns);
    lemma_p_patterns(v.backup_patterns, pre, rest, s.len());
}

proof fn lemma_step_lit_dest(v: SpecSettings)
    ensures
        p_lit(spec_render(v), pos3(v), lit_dest()) == Some(pos4(v)),
{
    let s = spec_render(v);
    let pre = lit_head() + render_string(v.settings_version) + lit_patterns() + render_patterns(
        v.backup_patterns,
    );
    let rest = render_string(v.backup_dest_path) + seg_tail2(v);
    assert(s =~= pre + lit_dest() + rest);
    lemma_lit_at(s, pre, lit_dest(), rest);
}

proof fn lemma_step_dest(v: SpecSettings)
    ensures
        p_string(spec_render(v), pos4(v)) == Some((v.backup_dest_path, pos5(v))),
{
    let s = spec_render(v);
    let pre = lit_head() + render_string(v.settings_version) + lit_patterns() + render_patterns(
        v.backup_patterns,
    ) + lit_dest();
    let rest = seg_tail2(v);
    assert(s =~= pre + render_string(v.backup_dest_path) + rest);
    lemma_p_string(v.backup_dest_path, pre, rest);
}

proof fn lemma_step_lit_count(v: SpecSettings)
    ensures
        p_lit(spec_render(v), pos5(v), lit_count()) == Some(pos6(v)),
{
    let s = spec_render(v);
    let pre = lit_head() + render_string(v.settings_version) + lit_patterns() + render_patterns(
        v.backup_patterns,
    ) + lit_dest() + render_string(v.backup_dest_path);
    let rest = render_u8(v.backup_count) + seg_tail3(v);
    assert(s =~= pre + lit_count() + rest);
    lemma_lit_at(s, pre, lit_count(), rest);
}

proof fn lemma_step_count(v: SpecSettings)
    ensures
        p_u8(spec_render(v), pos6(v)) == Some((v.backup_count, pos7(v))),
{
    let s = spec_render(v);
    let pre = lit_head() + render_string(v.settings_version) + lit_patterns() + render_patterns(
        v.backup_patterns,
    ) + lit_dest() + render_string(v.backup_dest_path) + lit_count();
    let rest = seg_tail3(v);
    assert(s =~= pre + render_u8(v.backup_count) + rest);
    reveal_strlit(",\"backup_delay_sec\":");
    assert(lit_delay()[0] == ',');
    assert(rest[0] == ',');
    assert(!is_digit(rest[0]));
    lemma_p_u8(v.backup_count, pre, rest);
}

proof fn lemma_step_lit_delay(v: SpecSettings)
    ensures
        p_lit(spec_render(v), pos7(v), lit_delay()) == Some(pos8(v)),
{
    let s = spec_render(v);
    let pre = lit_head() + render_string(v.settings_version) + lit_patterns() + render_patterns(
        v.backup_patterns,
    ) + lit_dest() + render_string(v.backup_dest_path) + lit_count() + render_u8(v.backup_count);
    let rest = render_u8(v.backup_delay_sec) + seq!['}'];
    assert(s =~= pre + lit_delay() + rest);
    lemma_lit_at(s, pre, lit_delay(), rest);
}

proof fn lemma_step_delay(v: SpecSettings)
    ensures
        p_u8(spec_render(v), pos8(v)) == Some((v.backup_delay_sec, pos9(v))),
        spec_render(v).len() == pos9(v) + 1,
        spec_render(v)[pos9(v)] == '}',
{
    let s = spec_render(v);
    let pre = lit_head() + render_string(v.settings_version) + lit_patterns() + render_patterns(
        v.backup_patterns,
    ) + lit_dest() + render_string(v.backup_dest_path) + lit_count() + render_u8(v.backup_count)
        + lit_delay();
    let rest = seq!['}'];
    assert(s =~= pre + render_u8(v.backup_delay_sec) + rest);
    assert(!is_digit(rest[0]));
    lemma_p_u8(v.backup_delay_sec, pre, rest);
}

/// Law: saving and loading round-trip.  The rendered text of any
/// configuration parses back to exactly that configuration.
pub proof fn lemma_render_parse_round_trip(v: SpecSettings)
    ensures
        spec_parse(spec_render(v)) == Some(v),
{
    let s = spec_render(v);
    lemma_step_head(v);
    lemma_step_version(v);
    lemma_step_lit_patterns(v);
    lemma_step_patterns(v);
    lemma_step_lit_dest(v);
    lemma_step_dest(v);
    lemma_step_lit_count(v);
    lemma_step_count(v);
    lemma_step_lit_delay(v);
    lemma_step_delay(v);
    assert(spec_parse(s) == Some(
        SpecSettings {
            settings_version: v.settings_version,
            backup_patterns: v.backup_patterns,
            backup_dest_path: v.backup_dest_path,
            backup_count: v.backup_count,
            backup_delay_sec: v.backup_delay_sec,
        },
    ));
    assert(SpecSettings {
        settings_version: v.settings_version,
        backup_patterns: v.backup_patterns,
        backup_dest_path: v.backup_dest_path,
        backup_count: v.backup_count,
        backup_delay_sec: v.backup_delay_sec,
    } =~~= v);
}


/// Relies on String::push: appends one character at the end.
#[verifier::external_body]
fn push_char(s: &mut String, c: char)
    ensures
        final(s)@ == old(s)@.push(c),
{
    s.push(c);
}

fn str_to_chars(s: &str) -> (r: Vec<char>)
    ensures
        r@ == s@,
{
    let n = s.unicode_len();
    let mut r: Vec<char> = Vec::new();
    let mut i: usize = 0;
    while i < n
        invariant
            n == s@.len(),
            0 <= i <= n,
            r@ == s@.take(i as int),
        decreases n - i,
    {
        let c = s.get_char(i);
        r.push(c);
        proof {
            assert(r@ =~= s@.take(i as int + 1));
        }
        i += 1;
    }
    proof {
        assert(s@.take(n as int) =~= s@);
    }
    r
}

proof fn lemma_esc_append(a: Seq<char>, b: Seq<char>)
    ensures
        esc(a + b) == esc(a) + esc(b),
    decreases a.len(),
{
    if a.len() == 0 {
        assert(a + b =~= b);
        assert(esc(a) + esc(b) =~= esc(b));
    } else {
        let ab = a + b;
        assert(ab[0] == a[0]);
        assert(ab.drop_first() =~= a.drop_first() + b);
        lemma_esc_append(a.drop_first(), b);
        assert(esc(ab) == esc_char(a[0]) + (esc(a.drop_first()) + esc(b)));
        assert(esc_char(a[0]) + (esc(a.drop_first()) + esc(b)) =~= (esc_char(a[0]) + esc(
            a.drop_first(),
        )) + esc(b));
    }
}

fn append_escaped(out: &mut String, s: &str)
    ensures
        final(out)@ == old(out)@ + esc(s@),
{
    let ghost out0 = out@;
    let n = s.unicode_len();
    let mut i: usize = 0;
    while i < n
        invariant
            n == s@.len(),
            0 <= i <= n,
            out@ == out0 + esc(s@.take(i as int)),
        decreases n - i,
    {
        let c = s.get_char(i);
        if c == '"' || c == '\\' {
            push_char(out, '\\');
            push_char(out, c);
        } else if (c as u32) < 32 {
            let code = c as u32;
            push_char(out, '\\');
            push_char(out, 'u');
            push_char(out, '0');
            push_char(out, '0');
            push_char(out, hex_ascii((code / 16) as u8));
            push_char(out, hex_ascii((code % 16) as u8));
        } else {
            push_char(out, c);
        }
        proof {
            let cs = seq![s@[i as int]];
            assert(s@.take(i as int + 1) =~= s@.take(i as int) + cs);
            lemma_esc_append(s@.take(i as int), cs);
            assert(cs.drop_first() =~= Seq::<char>::empty());
            assert(esc(cs) == esc_char(s@[i as int]) + esc(Seq::<char>::empty()));
            assert(out@ =~= out0 + esc(s@.take(i as int + 1)));
        }
        i += 1;
    }
    proof {
        assert(s@.take(n as int) =~= s@);
    }
}

fn append_string_component(out: &mut String, s: &str)
    ensures
        final(out)@ == old(out)@ + render_string(s@),
{
    let ghost out0 = out@;
    push_char(out, '"');
    append_escaped(out, s);
    push_char(out, '"');
    proof {
        assert(out@ =~= out0 + render_string(s@));
    }
}

fn digit_ascii(d: u8) -> (c: char)
    requires
        d < 10,
    ensures
        c == digit_char(d as int),
{
    match d {
        0 => '0',
        1 => '1',
        2 => '2',
        3 => '3',
        4 => '4',
        5 => '5',
        6 => '6',
        7 => '7',
        8 => '8',
        _ => '9',
    }
}

fn hex_ascii(d: u8) -> (c: char)
    requires
        d < 16,
    ensures
        c == hex_char(d as int),
{
    proof {
        reveal(hex_char);
    }
    match d {
        0 => '0',
        1 => '1',
        2 => '2',
        3 => '3',
        4 => '4',
        5 => '5',
        6 => '6',
        7 => '7',
        8 => '8',
        9 => '9',
        10 => 'a',
        11 => 'b',
        12 => 'c',
        13 => 'd',
        14 => 'e',
        _ => 'f',
    }
}

fn append_u8(out: &mut String, n: u8)
    ensures
        final(out)@ == old(out)@ + render_u8(n),
{
    let ghost out0 = out@;
    if n < 10 {
        push_char(out, digit_ascii(n));
        proof {
            assert(out@ =~= out0 + render_u8(n));
        }
    } else if n < 100 {
        push_char(out, digit_ascii(n / 10));
        push_char(out, digit_ascii(n % 10));
        proof {
            assert(out@ =~= out0 + render_u8(n));
        }
    } else {
        push_char(out, digit_ascii(n / 100));
        push_char(out, digit_ascii((n / 10) % 10));
        push_char(out, digit_ascii(n % 10));
        proof {
            assert(out@ =~= out0 + render_u8(n));
        }
    }
}

fn append_pattern(out: &mut String, p: &BackupFilePattern)
    ensures
        final(out)@ == old(out)@ + render_pattern(p@),
{
    let ghost out0 = out@;
    out.append("{\"source_dir\":");
    append_string_component(out, p.source_dir.as_str());
    out.append(",\"filename_pattern\":");
    append_string_component(out, p.filename_pattern.as_str());
    push_char(out, '}');
    proof {
        assert(out@ =~= out0 + render_pattern(p@));
    }
}

proof fn lemma_render_patterns_tail_push(u: Seq<SpecPattern>, x: SpecPattern)
    ensures
        render_patterns_tail(u.push(x)) == render_patterns_tail(u) + seq![','] + render_pattern(x),
    decreases u.len(),
{
    let ux = u.push(x);
    if u.len() == 0 {
        assert(ux[0] == x);
        assert(ux.drop_first() =~= Seq::<SpecPattern>::empty());
        assert(render_patterns_tail(ux) == seq![','] + render_pattern(x) + render_patterns_tail(
            Seq::empty(),
        ));
        assert(seq![','] + render_pattern(x) + render_patterns_tail(Seq::empty()) =~=
            render_patterns_tail(u) + seq![','] + render_pattern(x));
    } else {
        assert(ux[0] == u[0]);
        assert(ux.drop_first() =~= u.drop_first().push(x));
        lemma_render_patterns_tail_push(u.drop_first(), x);
        assert(render_patterns_tail(ux) == seq![','] + render_pattern(u[0]) + (render_patterns_tail(
            u.drop_first(),
        ) + seq![','] + render_pattern(x)));
        assert(seq![','] + render_pattern(u[0]) + (render_patterns_tail(u.drop_first()) + seq![',']
            + render_pattern(x)) =~= render_patterns_tail(u) + seq![','] + render_pattern(x));
    }
}

/// The persisted text of a configuration, as it is written to disk.
pub fn render_settings(settings: &Settings) -> (r: String)
    ensures
        r@ == spec_render(settings@),
{
    let ghost v = settings@;
    let ghost ps = v.backup_patterns;
    let mut out = String::new();
    out.append("{\"settings_version\":");
    append_string_component(&mut out, settings.settings_version.as_str());
    out.append(",\"backup_patterns\":");
    let ghost base = out@;
    push_char(&mut out, '[');
    let n = settings.backup_patterns.len();
    if n > 0 {
        append_pattern(&mut out, &settings.backup_patterns[0]);
        let mut i: usize = 1;
        while i < n
            invariant
                1 <= i <= n,
                n == settings.backup_patterns@.len(),
                ps == settings@.backup_patterns,
                out@ == base + seq!['['] + render_pattern(ps[0]) + render_patterns_tail(
                    ps.subrange(1, i as int),
                ),
            decreases n - i,
        {
            push_char(&mut out, ',');
            append_pattern(&mut out, &settings.backup_patterns[i]);
            proof {
                assert(ps.subrange(1, i as int + 1) =~= ps.subrange(1, i as int).push(
                    ps[i as int],
                ));
                lemma_render_patterns_tail_push(ps.subrange(1, i as int), ps[i as int]);
                assert(out@ =~= base + seq!['['] + render_pattern(ps[0]) + render_patterns_tail(
                    ps.subrange(1, i as int + 1),
                ));
            }
            i += 1;
        }
        push_char(&mut out, ']');
        proof {
            assert(ps.subrange(1, n as int) =~= ps.drop_first());
            assert(out@ =~= base + render_patterns(ps));
        }
    } else {
        push_char(&mut out, ']');
        proof {
            assert(out@ =~= base + render_patterns(ps));
        }
    }
    out.append(",\"backup_dest_path\":");
    append_string_component(&mut out, settings.backup_dest_path.as_str());
    out.append(",\"backup_count\":");
    append_u8(&mut out, settings.backup_count);
    out.append(",\"backup_delay_sec\":");
    append_u8(&mut out, settings.backup_delay_sec);
    push_char(&mut out, '}');
    proof {
        assert(out@ =~= spec_render(v));
    }
    out
}


fn e_lit(s: &Vec<char>, i: usize, lit: &Vec<char>) -> (r: Option<usize>)
    ensures
        match p_lit(s@, i as int, lit@) {
            Some(j) => r matches Some(rj) && rj as int == j,
            None => r is None,
        },
{
    if i > s.len() || s.len() - i < lit.len() {
        return None;
    }
    let n = s.len();
    let m = lit.len();
    let mut k: usize = 0;
    while k < m
        invariant
            n == s@.len(),
            m == lit@.len(),
            i + m <= n,
            0 <= k <= m,
            forall|t: int| 0 <= t < k ==> s@[i + t] == lit@[t],
        decreases m - k,
    {
        if s[i + k] != lit[k] {
            proof {
                assert(s@.subrange(i as int, i + lit@.len() as int)[k as int] == s@[i + k]);
                assert(s@.subrange(i as int, i + lit@.len() as int) != lit@);
            }
            return None;
        }
        k += 1;
    }
    proof {
        assert(s@.subrange(i as int, i + lit@.len() as int) =~= lit@);
    }
    Some(i + m)
}

fn e_string_body(s: &Vec<char>, i: usize) -> (r: Option<(String, usize)>)
    requires
        i <= s@.len(),
    ensures
        match p_string_body(s@, i as int) {
            Some((t, j)) => r matches Some(q) && q.0@ == t && q.1 as int == j && q.1 <= s@.len(),
            None => r is None,
        },
    decreases s@.len() - i,
{
    proof {
        reveal(is_short_escape);
        reveal(short_escape_char);
    }
    if i >= s.len() {
        return None;
    }
    let c = s[i];
    if c == '"' {
        Some((String::new(), i + 1))
    } else if c == '\\' {
        if i + 1 < s.len() && (s[i + 1] == '"' || s[i + 1] == '\\') {
            match e_string_body(s, i + 2) {
                Some((t, j)) => {
                    let mut r = String::new();
                    push_char(&mut r, s[i + 1]);
                    r.append(t.as_str());
                    proof {
                        assert(r@ =~= seq![s@[i as int + 1]] + t@);
                    }
                    Some((r, j))
                },
                None => None,
            }
        } else if i + 1 < s.len() && (s[i + 1] == 't' || s[i + 1] == 'n' || s[i + 1] == 'r' || s[i
            + 1] == 'b' || s[i + 1] == 'f' || s[i + 1] == '/') {
            let e = s[i + 1];
            let c2 = if e == 't' {
                '\t'
            } else if e == 'n' {
                '\n'
            } else if e == 'r' {
                '\r'
            } else if e == 'b' {
                '\u{8}'
            } else if e == 'f' {
                '\u{c}'
            } else {
                '/'
            };
            match e_string_body(s, i + 2) {
                Some((t, j)) => {
                    let mut r = String::new();
                    push_char(&mut r, c2);
                    r.append(t.as_str());
                    proof {
                        assert(r@ =~= seq![short_escape_char(s@[i as int + 1])] + t@);
                    }
                    Some((r, j))
                },
                None => None,
            }
        } else if s.len() - i > 5 && s[i + 1] == 'u' {
            let h0 = hex_of(s[i + 2]);
            let h1 = hex_of(s[i + 3]);
            let h2 = hex_of(s[i + 4]);
            let h3 = hex_of(s[i + 5]);
            match (h0, h1, h2, h3) {
                (Some(d0), Some(d1), Some(d2), Some(d3)) => {
                    let code: u32 = 4096 * (d0 as u32) + 256 * (d1 as u32) + 16 * (d2 as u32) + (
                    d3 as u32);
                    if code < 32 {
                        match e_string_body(s, i + 6) {
                            Some((t, j)) => {
                                let mut r = String::new();
                                push_char(&mut r, (code as u8) as char);
                                r.append(t.as_str());
                                proof {
                                    assert(r@ =~= seq![((code as u8) as char)] + t@);
                                }
                                Some((r, j))
                            },
                            None => None,
                        }
                    } else {
                        None
                    }
                },
                _ => None,
            }
        } else {
            None
        }
    } else if (c as u32) < 32 {
        None
    } else {
        match e_string_body(s, i + 1) {
            Some((t, j)) => {
                let mut r = String::new();
                push_char(&mut r, c);
                r.append(t.as_str());
                proof {
                    assert(r@ =~= seq![s@[i as int]] + t@);
                }
                Some((r, j))
            },
            None => None,
        }
    }
}

fn e_string(s: &Vec<char>, i: usize) -> (r: Option<(String, usize)>)
    ensures
        match p_string(s@, i as int) {
            Some((t, j)) => r matches Some(q) && q.0@ == t && q.1 as int == j && q.1 <= s@.len(),
            None => r is None,
        },
{
    if i < s.len() && s[i] == '"' {
        e_string_body(s, i + 1)
    } else {
        None
    }
}

fn hex_of(c: char) -> (r: Option<u8>)
    ensures
        match r {
            Some(d) => is_hex(c) && d < 16 && d as int == hex_val(c),
            None => !is_hex(c),
        },
{
    proof {
        reveal(is_hex);
        reveal(hex_val);
    }
    match c {
        '0' => Some(0),
        '1' => Some(1),
        '2' => Some(2),
        '3' => Some(3),
        '4' => Some(4),
        '5' => Some(5),
        '6' => Some(6),
        '7' => Some(7),
        '8' => Some(8),
        '9' => Some(9),
        'a' | 'A' => Some(10),
        'b' | 'B' => Some(11),
        'c' | 'C' => Some(12),
        'd' | 'D' => Some(13),
        'e' | 'E' => Some(14),
        'f' | 'F' => Some(15),
        _ => None,
    }
}

fn digit_of(c: char) -> (r: Option<u8>)
    ensures
        match r {
            Some(d) => is_digit(c) && d < 10 && d as int == digit_val(c),
            None => !is_digit(c),
        },
{
    match c {
        '0' => Some(0),
        '1' => Some(1),
        '2' => Some(2),
        '3' => Some(3),
        '4' => Some(4),
        '5' => Some(5),
        '6' => Some(6),
        '7' => Some(7),
        '8' => Some(8),
        '9' => Some(9),
        _ => None,
    }
}

fn e_u8(s: &Vec<char>, i: usize) -> (r: Option<(u8, usize)>)
    ensures
        match p_u8(s@, i as int) {
            Some((v, j)) => r matches Some(q) && q.0 == v && q.1 as int == j && q.1 <= s@.len(),
            None => r is None,
        },
{
    if i >= s.len() {
        return None;
    }
    let d0 = match digit_of(s[i]) {
        Some(d) => d,
        None => {
            return None;
        },
    };
    if i + 1 < s.len() && digit_of(s[i + 1]).is_some() {
        let d1 = match digit_of(s[i + 1]) {
            Some(d) => d,
            None => {
                return None;
            },
        };
        if s[i] == '0' {
            return None;
        }
        if i + 2 < s.len() && digit_of(s[i + 2]).is_some() {
            let d2 = match digit_of(s[i + 2]) {
                Some(d) => d,
                None => {
                    return None;
                },
            };
            if i + 3 < s.len() && digit_of(s[i + 3]).is_some() {
                return None;
            }
            let v: u32 = 100 * (d0 as u32) + 10 * (d1 as u32) + (d2 as u32);
            if v <= 255 {
                Some((v as u8, i + 3))
            } else {
                None
            }
        } else {
            Some((10 * d0 + d1, i + 2))
        }
    } else {
        Some((d0, i + 1))
    }
}

fn e_pattern(s: &Vec<char>, i: usize, lit_open: &Vec<char>, lit_mid: &Vec<char>, lit_close: &Vec<
    char,
>) -> (r: Option<(BackupFilePattern, usize)>)
    requires
        lit_open@ == lit_pat_open(),
        lit_mid@ == lit_pat_mid(),
        lit_close@ == seq!['}'],
    ensures
        match p_pattern(s@, i as int) {
            Some((p, j)) => r matches Some(q) && q.0@ == p && q.1 as int == j && q.1 <= s@.len(),
            None => r is None,
        },
{
    let j1 = match e_lit(s, i, lit_open) {
        Some(j) => j,
        None => {
            return None;
        },
    };
    let (src, j2) = match e_string(s, j1) {
        Some(q) => q,
        None => {
            return None;
        },
    };
    let j3 = match e_lit(s, j2, lit_mid) {
        Some(j) => j,
        None => {
            return None;
        },
    };
    let (pat, j4) = match e_string(s, j3) {
        Some(q) => q,
        None => {
            return None;
        },
    };
    let j5 = match e_lit(s, j4, lit_close) {
        Some(j) => j,
        None => {
            return None;
        },
    };
    Some((BackupFilePattern { source_dir: src, filename_pattern: pat }, j5))
}

fn e_patterns_tail(
    s: &Vec<char>,
    i: usize,
    fuel: usize,
    lit_open: &Vec<char>,
    lit_mid: &Vec<char>,
    lit_close: &Vec<char>,
) -> (r: Option<(Vec<BackupFilePattern>, usize)>)
    requires
        lit_open@ == lit_pat_open(),
        lit_mid@ == lit_pat_mid(),
        lit_close@ == seq!['}'],
    ensures
        match p_patterns_tail(s@, i as int, fuel as nat) {
            Some((ps, j)) => r matches Some(q) && patterns_view(q.0@) == ps && q.1 as int == j
                && q.1 <= s@.len(),
            None => r is None,
        },
    decreases fuel,
{
    if i < s.len() && s[i] == ']' {
        let out: Vec<BackupFilePattern> = Vec::new();
        proof {
            assert(patterns_view(out@) =~= Seq::<SpecPattern>::empty());
        }
        return Some((out, i + 1));
    }
    if i < s.len() && s[i] == ',' && fuel > 0 {
        let (p, j) = match e_pattern(s, i + 1, lit_open, lit_mid, lit_close) {
            Some(q) => q,
            None => {
                return None;
            },
        };
        let (mut ps_vec, k) = match e_patterns_tail(s, j, fuel - 1, lit_open, lit_mid, lit_close) {
            Some(q) => q,
            None => {
                return None;
            },
        };
        let ghost tail_view = patterns_view(ps_vec@);
        ps_vec.insert(0, p);
        proof {
            assert(patterns_view(ps_vec@) =~= seq![p@] + tail_view);
        }
        Some((ps_vec, k))
    } else {
        None
    }
}

fn e_patterns(
    s: &Vec<char>,
    i: usize,
    fuel: usize,
    lit_open: &Vec<char>,
    lit_mid: &Vec<char>,
    lit_close: &Vec<char>,
) -> (r: Option<(Vec<BackupFilePattern>, usize)>)
    requires
        lit_open@ == lit_pat_open(),
        lit_mid@ == lit_pat_mid(),
        lit_close@ == seq!['}'],
    ensures
        match p_patterns(s@, i as int, fuel as nat) {
            Some((ps, j)) => r matches Some(q) && patterns_view(q.0@) == ps && q.1 as int == j
                && q.1 <= s@.len(),
            None => r is None,
        },
{
    if !(i < s.len() && s[i] == '[') {
        return None;
    }
    if i + 1 < s.len() && s[i + 1] == ']' {
        let out: Vec<BackupFilePattern> = Vec::new();
        proof {
            assert(patterns_view(out@) =~= Seq::<SpecPattern>::empty());
        }
        return Some((out, i + 2));
    }
    let (p, j) = match e_pattern(s, i + 1, lit_open, lit_mid, lit_close) {
        Some(q) => q,
        None => {
            return None;
        },
    };
    let (mut ps_vec, k) = match e_patterns_tail(s, j, fuel, lit_open, lit_mid, lit_close) {
        Some(q) => q,
        None => {
            return None;
        },
    };
    let ghost tail_view = patterns_view(ps_vec@);
    ps_vec.insert(0, p);
    proof {
        assert(patterns_view(ps_vec@) =~= seq![p@] + tail_view);
    }
    Some((ps_vec, k))
}

/// Reads a configuration back from its persisted text; `None` when the text
/// is not a rendered configuration.
pub fn parse_settings(s: &str) -> (r: Option<Settings>)
    ensures
        match spec_parse(s@) {
            Some(v) => r matches Some(t) && t@ == v,
            None => r is None,
        },
{
    let chars = str_to_chars(s);
    let lit_head_v = str_to_chars("{\"settings_version\":");
    let lit_patterns_v = str_to_chars(",\"backup_patterns\":");
    let lit_dest_v = str_to_chars(",\"backup_dest_path\":");
    let lit_count_v = str_to_chars(",\"backup_count\":");
    let lit_delay_v = str_to_chars(",\"backup_delay_sec\":");
    let lit_open_v = str_to_chars("{\"source_dir\":");
    let lit_mid_v = str_to_chars(",\"filename_pattern\":");
    let mut lit_close_v: Vec<char> = Vec::new();
    lit_close_v.push('}');
    proof {
        assert(lit_close_v@ =~= seq!['}']);
    }
    let j1 = match e_lit(&chars, 0, &lit_head_v) {
        Some(j) => j,
        None => {
            return None;
        },
    };
    let (version, j2) = match e_string(&chars, j1) {
        Some(q) => q,
        None => {
            return None;
        },
    };
    let j3 = match e_lit(&chars, j2, &lit_patterns_v) {
        Some(j) => j,
        None => {
            return None;
        },
    };
    let (patterns, j4) = match e_patterns(
        &chars,
        j3,
        chars.len(),
        &lit_open_v,
        &lit_mid_v,
        &lit_close_v,
    ) {
        Some(q) => q,
        None => {
            return None;
        },
    };
    let j5 = match e_lit(&chars, j4, &lit_dest_v) {
        Some(j) => j,
        None => {
            return None;
        },
    };
    let (dest, j6) = match e_string(&chars, j5) {
        Some(q) => q,
        None => {
            return None;
        },
    };
    let j7 = match e_lit(&chars, j6, &lit_count_v) {
        Some(j) => j,
        None => {
            return None;
        },
    };
    let (count, j8) = match e_u8(&chars, j7) {
        Some(q) => q,
        None => {
            return None;
        },
    };
    let j9 = match e_lit(&chars, j8, &lit_delay_v) {
        Some(j) => j,
        None => {
            return None;
        },
    };
    let (delay, j10) = match e_u8(&chars, j9) {
        Some(q) => q,
        None => {
            return None;
        },
    };
    if !(j10 < chars.len() && chars.len() - j10 == 1 && chars[j10] == '}') {
        return None;
    }
    let t = Settings {
        settings_version: version,
        backup_patterns: patterns,
        backup_dest_path: dest,
        backup_count: count,
        backup_delay_sec: delay,
    };
    proof {
        let v = spec_parse(s@)->Some_0;
        assert(t@ =~~= v);
    }
    Some(t)
}

} // verus!
