//! Config store codec: the persisted swipe configuration as a single JSON
//! document of the shape `{"swipe":{"up":A,"down":A,"left":A,"right":A}}`,
//! where each `A` is a tagged action object such as `{"type":"Delete"}` or
//! `{"type":"custom_folder","path":"..."}`.
//!
//! The encoder produces one canonical compact text for each configuration,
//! escaping quote, backslash and control characters as JSON asks. The
//! decoder is tolerant the way a hand-edited document needs: whitespace may
//! stand between tokens, and a path string may use the standard escapes
//! (`\"`, `\\`, `\/`, `\b`, `\f`, `\n`, `\r`, `\t`, and `\uXXXX` for any
//! non-surrogate value; astral characters are written raw in UTF-8, never
//! as surrogate pairs). Keys and action tags are matched literally. A
//! malformed document is a hard `ParseError`, never silently replaced by
//! defaults; defaults apply only to a genuinely absent file, which is
//! handled by [`config_of_loaded`].

use vstd::prelude::*;

use crate::types::ActionView;
use crate::types::OrganizerConfig;
use crate::types::OrganizerError;
use crate::types::SwipeAction;
use crate::types::SwipeConfig;
use crate::types::SwipeConfigView;
use crate::types::default_swipe_config_view;

verus! {

/// The lower-case hexadecimal digit of a nibble.
pub open spec fn hex_digit(d: int) -> char {
    if d == 0 {
        '0'
    } else if d == 1 {
        '1'
    } else if d == 2 {
        '2'
    } else if d == 3 {
        '3'
    } else if d == 4 {
        '4'
    } else if d == 5 {
        '5'
    } else if d == 6 {
        '6'
    } else if d == 7 {
        '7'
    } else if d == 8 {
        '8'
    } else if d == 9 {
        '9'
    } else if d == 10 {
        'a'
    } else if d == 11 {
        'b'
    } else if d == 12 {
        'c'
    } else if d == 13 {
        'd'
    } else if d == 14 {
        'e'
    } else {
        'f'
    }
}

/// How one character of a custom-folder path is written inside a JSON
/// string: quote and backslash are escaped, the named control characters
/// take their short escapes, the remaining control characters take the
/// `\u00XX` form, and everything else stands as-is.
pub open spec fn esc_char(c: char) -> Seq<char> {
    if c == '"' {
        seq!['\\', '"']
    } else if c == '\\' {
        seq!['\\', '\\']
    } else if c == '\u{8}' {
        seq!['\\', 'b']
    } else if c == '\u{c}' {
        seq!['\\', 'f']
    } else if c == '\n' {
        seq!['\\', 'n']
    } else if c == '\r' {
        seq!['\\', 'r']
    } else if c == '\t' {
        seq!['\\', 't']
    } else if (c as u32) < 32 {
        seq!['\\', 'u', '0', '0', hex_digit((c as u32) as int / 16), hex_digit(
            (c as u32) as int % 16,
        )]
    } else {
        seq![c]
    }
}

/// The escaped body of a JSON string.
pub open spec fn esc(p: Seq<char>) -> Seq<char>
    decreases p.len(),
{
    if p.len() == 0 {
        Seq::<char>::empty()
    } else {
        esc_char(p[0]) + esc(p.drop_first())
    }
}

/// The canonical JSON text of one action.
pub open spec fn spec_action_json(a: ActionView) -> Seq<char> {
    match a {
        ActionView::ARoll => "{\"type\":\"ARoll\"}"@,
        ActionView::BRoll => "{\"type\":\"BRoll\"}"@,
        ActionView::Delete => "{\"type\":\"Delete\"}"@,
        ActionView::Skip => "{\"type\":\"Skip\"}"@,
        ActionView::CustomFolder { path } => "{\"type\":\"custom_folder\",\"path\":\""@ + esc(path)
            + "\"}"@,
    }
}

/// The canonical JSON text of a whole configuration.
pub open spec fn spec_config_json(c: SwipeConfigView) -> Seq<char> {
    "{\"swipe\":{\"up\":"@ + spec_action_json(c.up) + ",\"down\":"@ + spec_action_json(c.down)
        + ",\"left\":"@ + spec_action_json(c.left) + ",\"right\":"@ + spec_action_json(c.right)
        + "}}"@
}

/// Escaping distributes over concatenation.
pub proof fn lemma_esc_concat(a: Seq<char>, b: Seq<char>)
    ensures
        esc(a + b) == esc(a) + esc(b),
    decreases a.len(),
{
    if a.len() == 0 {
        assert(a + b =~= b);
        assert(esc(a) + esc(b) =~= esc(b));
    } else {
        assert((a + b).drop_first() =~= a.drop_first() + b);
        lemma_esc_concat(a.drop_first(), b);
        assert(esc(a + b) =~= esc(a) + esc(b));
    }
}

proof fn lemma_esc_single(c: char)
    ensures
        esc(seq![c]) == esc_char(c),
{
    assert(seq![c].len() == 1);
    assert(seq![c][0] == c);
    assert(seq![c].drop_first() =~= Seq::<char>::empty());
    assert(esc(Seq::<char>::empty()) == Seq::<char>::empty());
    assert(esc(seq![c]) == esc_char(c) + esc(seq![c].drop_first()));
    assert(esc_char(c) + Seq::<char>::empty() =~= esc_char(c));
}

/// The string of one lower-case hexadecimal digit.
fn hex_digit_str(d: u32) -> (r: &'static str)
    requires
        d < 16,
    ensures
        r@ == seq![hex_digit(d as int)],
{
    proof {
        reveal_strlit("0");
        reveal_strlit("1");
        reveal_strlit("2");
        reveal_strlit("3");
        reveal_strlit("4");
        reveal_strlit("5");
        reveal_strlit("6");
        reveal_strlit("7");
        reveal_strlit("8");
        reveal_strlit("9");
        reveal_strlit("a");
        reveal_strlit("b");
        reveal_strlit("c");
        reveal_strlit("d");
        reveal_strlit("e");
        reveal_strlit("f");
    }
    let r = if d == 0 {
        "0"
    } else if d == 1 {
        "1"
    } else if d == 2 {
        "2"
    } else if d == 3 {
        "3"
    } else if d == 4 {
        "4"
    } else if d == 5 {
        "5"
    } else if d == 6 {
        "6"
    } else if d == 7 {
        "7"
    } else if d == 8 {
        "8"
    } else if d == 9 {
        "9"
    } else if d == 10 {
        "a"
    } else if d == 11 {
        "b"
    } else if d == 12 {
        "c"
    } else if d == 13 {
        "d"
    } else if d == 14 {
        "e"
    } else {
        "f"
    };
    proof {
        assert(r@ =~= seq![hex_digit(d as int)]);
    }
    r
}

/// Appends the escaped body of `p` to `out`.
fn append_escaped(out: &mut String, p: &str)
    ensures
        final(out)@ == old(out)@ + esc(p@),
{
    let n = p.unicode_len();
    let ghost start = out@;
    let mut i: usize = 0;
    proof {
        assert(p@.take(0) =~= Seq::<char>::empty());
        assert(start + esc(p@.take(0)) =~= start);
    }
    while i < n
        invariant
            i <= n == p@.len(),
            out@ == start + esc(p@.take(i as int)),
        decreases n - i,
    {
        let c = p.get_char(i);
        let ghost before = out@;
        if c == '"' {
            out.append("\\\"");
            proof {
                reveal_strlit("\\\"");
                assert(out@ =~= before + esc_char(c));
            }
        } else if c == '\\' {
            out.append("\\\\");
            proof {
                reveal_strlit("\\\\");
                assert(out@ =~= before + esc_char(c));
            }
        } else if c == '\u{8}' {
            out.append("\\b");
            proof {
                reveal_strlit("\\b");
                assert(out@ =~= before + esc_char(c));
            }
        } else if c == '\u{c}' {
            out.append("\\f");
            proof {
                reveal_strlit("\\f");
                assert(out@ =~= before + esc_char(c));
            }
        } else if c == '\n' {
            out.append("\\n");
            proof {
                reveal_strlit("\\n");
                assert(out@ =~= before + esc_char(c));
            }
        } else if c == '\r' {
            out.append("\\r");
            proof {
                reveal_strlit("\\r");
                assert(out@ =~= before + esc_char(c));
            }
        } else if c == '\t' {
            out.append("\\t");
            proof {
                reveal_strlit("\\t");
                assert(out@ =~= before + esc_char(c));
            }
        } else if (c as u32) < 32 {
            let code = c as u32;
            out.append("\\u00");
            out.append(hex_digit_str(code / 16));
            out.append(hex_digit_str(code % 16));
            proof {
                reveal_strlit("\\u00");
                assert(out@ =~= before + esc_char(c));
            }
        } else {
            let piece = p.substring_char(i, i + 1);
            out.append(piece);
            proof {
                assert(piece@ =~= seq![c]);
                assert(out@ =~= before + esc_char(c));
            }
        }
        proof {
            assert(p@.take(i + 1) =~= p@.take(i as int) + seq![c]);
            lemma_esc_concat(p@.take(i as int), seq![c]);
            lemma_esc_single(c);
            assert(out@ =~= start + esc(p@.take(i + 1)));
        }
        i = i + 1;
    }
    proof {
        assert(p@.take(n as int) =~= p@);
    }
}

/// Appends the canonical JSON text of one action to `out`.
fn append_action_json(out: &mut String, a: &SwipeAction)
    ensures
        final(out)@ == old(out)@ + spec_action_json(a@),
{
    match a {
        SwipeAction::ARoll => out.append("{\"type\":\"ARoll\"}"),
        SwipeAction::BRoll => out.append("{\"type\":\"BRoll\"}"),
        SwipeAction::Delete => out.append("{\"type\":\"Delete\"}"),
        SwipeAction::Skip => out.append("{\"type\":\"Skip\"}"),
        SwipeAction::CustomFolder { path } => {
            let ghost start = out@;
            out.append("{\"type\":\"custom_folder\",\"path\":\"");
            append_escaped(out, path.as_str());
            out.append("\"}");
            proof {
                assert(out@ =~= start + spec_action_json(a@));
            }
        },
    }
}

/// Encodes a configuration as its canonical JSON document.
pub fn config_to_json(c: &OrganizerConfig) -> (r: String)
    ensures
        r@ == spec_config_json(c@),
{
    let mut out = String::from_str("{\"swipe\":{\"up\":");
    append_action_json(&mut out, &c.swipe.up);
    out.append(",\"down\":");
    append_action_json(&mut out, &c.swipe.down);
    out.append(",\"left\":");
    append_action_json(&mut out, &c.swipe.left);
    out.append(",\"right\":");
    append_action_json(&mut out, &c.swipe.right);
    out.append("}}");
    proof {
        assert(out@ =~= spec_config_json(c@));
    }
    out
}

/// `lit` occurs in `s` at position `i`.
pub open spec fn matches_at(s: Seq<char>, i: int, lit: Seq<char>) -> bool {
    0 <= i && i + lit.len() <= s.len() && s.subrange(i, i + lit.len()) == lit
}

/// A match of a concatenation is a match of both halves.
proof fn lemma_matches_at_concat(s: Seq<char>, i: int, a: Seq<char>, b: Seq<char>)
    ensures
        matches_at(s, i, a + b) == (matches_at(s, i, a) && matches_at(s, i + a.len(), b)),
{
    let la = a.len() as int;
    let lb = b.len() as int;
    if matches_at(s, i, a + b) {
        assert forall|k: int| 0 <= k < la implies s.subrange(i, i + la)[k] == a[k] by {
            assert(s.subrange(i, i + la + lb)[k] == (a + b)[k]);
        }
        assert(s.subrange(i, i + la) =~= a);
        assert forall|k: int| 0 <= k < lb implies s.subrange(i + la, i + la + lb)[k] == b[k] by {
            assert(s.subrange(i, i + la + lb)[la + k] == (a + b)[la + k]);
        }
        assert(s.subrange(i + la, i + la + lb) =~= b);
    }
    if matches_at(s, i, a) && matches_at(s, i + la, b) {
        assert forall|k: int| 0 <= k < la + lb implies s.subrange(i, i + la + lb)[k] == (a + b)[k]
            by {
            if k < la {
                assert(s.subrange(i, i + la)[k] == a[k]);
            } else {
                assert(s.subrange(i + la, i + la + lb)[k - la] == b[k - la]);
            }
        }
        assert(s.subrange(i, i + la + lb) =~= a + b);
    }
}

/// JSON inter-token whitespace.
pub open spec fn is_ws(c: char) -> bool {
    c == ' ' || c == '\t' || c == '\n' || c == '\r'
}

/// The first index at or after `i` that does not hold whitespace.
pub open spec fn ws_end(s: Seq<char>, i: int) -> int
    decreases s.len() - i,
{
    if 0 <= i < s.len() && is_ws(s[i]) {
        ws_end(s, i + 1)
    } else {
        i
    }
}

proof fn lemma_ws_end_bounds(s: Seq<char>, i: int)
    requires
        0 <= i <= s.len(),
    ensures
        i <= ws_end(s, i) <= s.len(),
    decreases s.len() - i,
{
    if i < s.len() && is_ws(s[i]) {
        lemma_ws_end_bounds(s, i + 1);
    }
}

/// The character a short escape stands for.
pub open spec fn unescape_char(e: char) -> Option<char> {
    if e == '"' {
        Some('"')
    } else if e == '\\' {
        Some('\\')
    } else if e == '/' {
        Some('/')
    } else if e == 'b' {
        Some('\u{8}')
    } else if e == 'f' {
        Some('\u{c}')
    } else if e == 'n' {
        Some('\n')
    } else if e == 'r' {
        Some('\r')
    } else if e == 't' {
        Some('\t')
    } else {
        None
    }
}

/// The value of one hexadecimal digit, either case.
pub open spec fn hex_val(c: char) -> Option<int> {
    if '0' <= c && c <= '9' {
        Some((c as u32) - ('0' as u32))
    } else if 'a' <= c && c <= 'f' {
        Some((c as u32) - ('a' as u32) + 10)
    } else if 'A' <= c && c <= 'F' {
        Some((c as u32) - ('A' as u32) + 10)
    } else {
        None
    }
}

/// The decoder of a JSON string body starting at `i` (just after the
/// opening quote): the decoded characters and the index just after the
/// closing quote. Escapes decode per [`unescape_char`]; a `\uXXXX` escape
/// decodes to the scalar it names, surrogate values refused.
pub open spec fn spec_parse_string(s: Seq<char>, i: int) -> Option<(Seq<char>, int)>
    decreases s.len() - i,
{
    if i < 0 || i >= s.len() {
        None
    } else if s[i] == '"' {
        Some((Seq::<char>::empty(), i + 1))
    } else if s[i] == '\\' {
        if i + 1 >= s.len() {
            None
        } else if s[i + 1] == 'u' {
            if i + 6 <= s.len() {
                match (hex_val(s[i + 2]), hex_val(s[i + 3]), hex_val(s[i + 4]), hex_val(
                    s[i + 5],
                )) {
                    (Some(h3), Some(h2), Some(h1), Some(h0)) => {
                        let v = h3 * 4096 + h2 * 256 + h1 * 16 + h0;
                        if v < 0xD800 || v >= 0xE000 {
                            match spec_parse_string(s, i + 6) {
                                Some((p, j)) => Some((seq![(v as u32) as char] + p, j)),
                                None => None,
                            }
                        } else {
                            None
                        }
                    },
                    _ => None,
                }
            } else {
                None
            }
        } else {
            match unescape_char(s[i + 1]) {
                Some(c) => match spec_parse_string(s, i + 2) {
                    Some((p, j)) => Some((seq![c] + p, j)),
                    None => None,
                },
                None => None,
            }
        }
    } else {
        match spec_parse_string(s, i + 1) {
            Some((p, j)) => Some((seq![s[i]] + p, j)),
            None => None,
        }
    }
}

/// The decoder of one action object starting at `i`, whitespace allowed
/// between tokens.
pub open spec fn spec_parse_action(s: Seq<char>, i: int) -> Option<(ActionView, int)> {
    let i0 = ws_end(s, i);
    if !matches_at(s, i0, "{"@) {
        None
    } else {
        let i1 = ws_end(s, i0 + 1);
        if !matches_at(s, i1, "\"type\""@) {
            None
        } else {
            let i2 = ws_end(s, i1 + "\"type\""@.len());
            if !matches_at(s, i2, ":"@) {
                None
            } else {
                let i3 = ws_end(s, i2 + 1);
                if matches_at(s, i3, "\"ARoll\""@) {
                    let i4 = ws_end(s, i3 + "\"ARoll\""@.len());
                    if matches_at(s, i4, "}"@) {
                        Some((ActionView::ARoll, i4 + 1))
                    } else {
                        None
                    }
                } else if matches_at(s, i3, "\"BRoll\""@) {
                    let i4 = ws_end(s, i3 + "\"BRoll\""@.len());
                    if matches_at(s, i4, "}"@) {
                        Some((ActionView::BRoll, i4 + 1))
                    } else {
                        None
                    }
                } else if matches_at(s, i3, "\"Delete\""@) {
                    let i4 = ws_end(s, i3 + "\"Delete\""@.len());
                    if matches_at(s, i4, "}"@) {
                        Some((ActionView::Delete, i4 + 1))
                    } else {
                        None
                    }
                } else if matches_at(s, i3, "\"Skip\""@) {
                    let i4 = ws_end(s, i3 + "\"Skip\""@.len());
                    if matches_at(s, i4, "}"@) {
                        Some((ActionView::Skip, i4 + 1))
                    } else {
                        None
                    }
                } else if matches_at(s, i3, "\"custom_folder\""@) {
                    let i4 = ws_end(s, i3 + "\"custom_folder\""@.len());
                    if !matches_at(s, i4, ","@) {
                        None
                    } else {
                        let i5 = ws_end(s, i4 + 1);
                        if !matches_at(s, i5, "\"path\""@) {
                            None
                        } else {
                            let i6 = ws_end(s, i5 + "\"path\""@.len());
                            if !matches_at(s, i6, ":"@) {
                                None
                            } else {
                                let i7 = ws_end(s, i6 + 1);
                                if !matches_at(s, i7, "\""@) {
                                    None
                                } else {
                                    match spec_parse_string(s, i7 + 1) {
                                        Some((p, j)) => {
                                            let j2 = ws_end(s, j);
                                            if matches_at(s, j2, "}"@) {
                                                Some(
                                                    (
                                                        ActionView::CustomFolder { path: p },
                                                        j2 + 1,
                                                    ),
                                                )
                                            } else {
                                                None
                                            }
                                        },
                                        None => None,
                                    }
                                }
                            }
                        }
                    }
                } else {
                    None
                }
            }
        }
    }
}

/// The decoder of a whole configuration document: it must consume the
/// whole text, up to trailing whitespace.
pub open spec fn spec_parse_config(s: Seq<char>) -> Option<SwipeConfigView> {
    let i0 = ws_end(s, 0);
    if !matches_at(s, i0, "{"@) {
        None
    } else {
        let i1 = ws_end(s, i0 + 1);
        if !matches_at(s, i1, "\"swipe\""@) {
            None
        } else {
            let i2 = ws_end(s, i1 + "\"swipe\""@.len());
            if !matches_at(s, i2, ":"@) {
                None
            } else {
                let i3 = ws_end(s, i2 + 1);
                if !matches_at(s, i3, "{"@) {
                    None
                } else {
                    let i4 = ws_end(s, i3 + 1);
                    if !matches_at(s, i4, "\"up\""@) {
                        None
                    } else {
                        let i5 = ws_end(s, i4 + "\"up\""@.len());
                        if !matches_at(s, i5, ":"@) {
                            None
                        } else {
                            match spec_parse_action(s, i5 + 1) {
                                Some((up, j1)) => spec_parse_config_rest(s, j1, up),
                                None => None,
                            }
                        }
                    }
                }
            }
        }
    }
}

/// The document after the `up` action: the three remaining bindings and
/// the closing braces.
pub open spec fn spec_parse_config_rest(s: Seq<char>, j1: int, up: ActionView) -> Option<
    SwipeConfigView,
> {
    let k1 = ws_end(s, j1);
    if !matches_at(s, k1, ","@) {
        None
    } else {
        let k2 = ws_end(s, k1 + 1);
        if !matches_at(s, k2, "\"down\""@) {
            None
        } else {
            let k3 = ws_end(s, k2 + "\"down\""@.len());
            if !matches_at(s, k3, ":"@) {
                None
            } else {
                match spec_parse_action(s, k3 + 1) {
                    Some((down, j2)) => {
                        let l1 = ws_end(s, j2);
                        if !matches_at(s, l1, ","@) {
                            None
                        } else {
                            let l2 = ws_end(s, l1 + 1);
                            if !matches_at(s, l2, "\"left\""@) {
                                None
                            } else {
                                let l3 = ws_end(s, l2 + "\"left\""@.len());
                                if !matches_at(s, l3, ":"@) {
                                    None
                                } else {
                                    match spec_parse_action(s, l3 + 1) {
                                        Some((left, j3)) => {
                                            let m1 = ws_end(s, j3);
                                            if !matches_at(s, m1, ","@) {
                                                None
                                            } else {
                                                let m2 = ws_end(s, m1 + 1);
                                                if !matches_at(s, m2, "\"right\""@) {
                                                    None
                                                } else {
                                                    let m3 = ws_end(
                                                        s,
                                                        m2 + "\"right\""@.len(),
                                                    );
                                                    if !matches_at(s, m3, ":"@) {
                                                        None
                                                    } else {
                                                        match spec_parse_action(s, m3 + 1) {
                                                            Some((right, j4)) => {
                                                                let e1 = ws_end(s, j4);
                                                                if matches_at(s, e1, "}"@)
                                                                    && matches_at(
                                                                    s,
                                                                    ws_end(s, e1 + 1),
                                                                    "}"@,
                                                                ) && ws_end(
                                                                    s,
                                                                    ws_end(s, e1 + 1) + 1,
                                                                ) == s.len() {
                                                                    Some(
                                                                        SwipeConfigView {
                                                                            up,
                                                                            down,
                                                                            left,
                                                                            right,
                                                                        },
                                                                    )
                                                                } else {
                                                                    None
                                                                }
                                                            },
                                                            None => None,
                                                        }
                                                    }
                                                }
                                            }
                                        },
                                        None => None,
                                    }
                                }
                            }
                        }
                    },
                    None => None,
                }
            }
        }
    }
}

/// Relies on char::from_u32: `Some` exactly for the valid scalar values
/// (below the surrogate range, or between it and the maximum), and the
/// returned character carries the given code.
#[verifier::external_body]
fn char_of_code(v: u32) -> (r: Option<char>)
    ensures
        match r {
            Some(c) => c as u32 == v && (v < 0xD800 || (0xE000 <= v && v <= 0x10FFFF)),
            None => !(v < 0xD800 || (0xE000 <= v && v <= 0x10FFFF)),
        },
{
    char::from_u32(v)
}

/// Relies on String::push: it appends the given character at the end.
#[verifier::external_body]
fn append_char(out: &mut String, c: char)
    ensures
        final(out)@ == old(out)@ + seq![c],
{
    out.push(c);
}

/// Expects `lit` at position `i` of `s`; on a match, returns the position
/// just after it.
fn expect_lit(s: &str, i: usize, lit: &str) -> (r: Option<usize>)
    ensures
        match r {
            Some(j) => matches_at(s@, i as int, lit@) && j == i + lit@.len(),
            None => !matches_at(s@, i as int, lit@),
        },
{
    let n = s.unicode_len();
    let ln = lit.unicode_len();
    if i > n || ln > n - i {
        return None;
    }
    let mut k: usize = 0;
    while k < ln
        invariant
            k <= ln == lit@.len(),
            i + ln <= n == s@.len(),
            forall|t: int| 0 <= t < k ==> s@[i + t] == lit@[t],
        decreases ln - k,
    {
        if s.get_char(i + k) != lit.get_char(k) {
            assert(s@.subrange(i as int, i + ln) != lit@) by {
                assert(s@.subrange(i as int, i + ln)[k as int] == s@[i + k]);
            }
            return None;
        }
        k = k + 1;
    }
    assert(s@.subrange(i as int, i + ln) =~= lit@);
    Some(i + ln)
}

/// Skips whitespace from `i` on.
fn skip_ws(s: &str, i: usize) -> (r: usize)
    requires
        i <= s@.len(),
    ensures
        r == ws_end(s@, i as int),
        i <= r <= s@.len(),
{
    let n = s.unicode_len();
    let mut cur: usize = i;
    while cur < n
        invariant
            i <= cur <= n == s@.len(),
            ws_end(s@, i as int) == ws_end(s@, cur as int),
        decreases n - cur,
    {
        let c = s.get_char(cur);
        if !(c == ' ' || c == '\t' || c == '\n' || c == '\r') {
            return cur;
        }
        cur = cur + 1;
    }
    cur
}

/// The value of one hexadecimal digit character.
fn hex_val_of(c: char) -> (r: Option<u32>)
    ensures
        match r {
            Some(h) => hex_val(c) == Some(h as int) && h < 16,
            None => hex_val(c) is None,
        },
{
    if '0' <= c && c <= '9' {
        Some(c as u32 - 48)
    } else if 'a' <= c && c <= 'f' {
        Some(c as u32 - 97 + 10)
    } else if 'A' <= c && c <= 'F' {
        Some(c as u32 - 65 + 10)
    } else {
        None
    }
}

/// The character a short escape stands for.
fn unescape_of(e: char) -> (r: Option<char>)
    ensures
        r == unescape_char(e),
{
    if e == '"' {
        Some('"')
    } else if e == '\\' {
        Some('\\')
    } else if e == '/' {
        Some('/')
    } else if e == 'b' {
        Some('\u{8}')
    } else if e == 'f' {
        Some('\u{c}')
    } else if e == 'n' {
        Some('\n')
    } else if e == 'r' {
        Some('\r')
    } else if e == 't' {
        Some('\t')
    } else {
        None
    }
}

/// Combines an already-decoded prefix with the rest of a string decode.
spec fn prepend_parsed(a: Seq<char>, o: Option<(Seq<char>, int)>) -> Option<(Seq<char>, int)> {
    match o {
        Some((p, j)) => Some((a + p, j)),
        None => None,
    }
}

/// Decodes a JSON string body starting at `i`, just after the opening
/// quote.
fn parse_string_body(s: &str, i: usize) -> (r: Option<(String, usize)>)
    ensures
        match r {
            Some(pj) => spec_parse_string(s@, i as int) == Some((pj.0@, pj.1 as int)),
            None => spec_parse_string(s@, i as int) is None,
        },
{
    let n = s.unicode_len();
    let mut acc = String::new();
    let mut cur: usize = i;
    loop
        invariant
            i <= cur,
            cur <= n || cur == i,
            n == s@.len(),
            spec_parse_string(s@, i as int) == prepend_parsed(
                acc@,
                spec_parse_string(s@, cur as int),
            ),
        decreases n - cur,
    {
        if cur >= n {
            return None;
        }
        let c = s.get_char(cur);
        if c == '"' {
            proof {
                assert(acc@ + Seq::<char>::empty() =~= acc@);
            }
            return Some((acc, cur + 1));
        } else if c == '\\' {
            if cur + 1 >= n {
                return None;
            }
            let e = s.get_char(cur + 1);
            if e == 'u' {
                if n - cur < 6 {
                    return None;
                }
                let h3 = match hex_val_of(s.get_char(cur + 2)) {
                    Some(h) => h,
                    None => {
                        return None;
                    },
                };
                let h2 = match hex_val_of(s.get_char(cur + 3)) {
                    Some(h) => h,
                    None => {
                        return None;
                    },
                };
                let h1 = match hex_val_of(s.get_char(cur + 4)) {
                    Some(h) => h,
                    None => {
                        return None;
                    },
                };
                let h0 = match hex_val_of(s.get_char(cur + 5)) {
                    Some(h) => h,
                    None => {
                        return None;
                    },
                };
                let v: u32 = h3 * 4096 + h2 * 256 + h1 * 16 + h0;
                if !(v < 0xD800 || v >= 0xE000) {
                    return None;
                }
                let c2 = match char_of_code(v) {
                    Some(c2) => c2,
                    None => {
                        assert(false);
                        return None;
                    },
                };
                proof {
                    vstd::utf8::char_u32_cast(c2, v);
                }
                let ghost old_acc = acc@;
                append_char(&mut acc, c2);
                proof {
                    assert(spec_parse_string(s@, i as int) == prepend_parsed(
                        acc@,
                        spec_parse_string(s@, cur + 6),
                    )) by {
                        match spec_parse_string(s@, cur + 6) {
                            Some((p, j)) => {
                                assert(old_acc + (seq![c2] + p) =~= acc@ + p);
                            },
                            None => {},
                        }
                    }
                }
                cur = cur + 6;
            } else {
                let d = match unescape_of(e) {
                    Some(d) => d,
                    None => {
                        return None;
                    },
                };
                let ghost old_acc = acc@;
                append_char(&mut acc, d);
                proof {
                    assert(spec_parse_string(s@, i as int) == prepend_parsed(
                        acc@,
                        spec_parse_string(s@, cur + 2),
                    )) by {
                        match spec_parse_string(s@, cur + 2) {
                            Some((p, j)) => {
                                assert(old_acc + (seq![d] + p) =~= acc@ + p);
                            },
                            None => {},
                        }
                    }
                }
                cur = cur + 2;
            }
        } else {
            let ghost old_acc = acc@;
            append_char(&mut acc, c);
            proof {
                assert(spec_parse_string(s@, i as int) == prepend_parsed(
                    acc@,
                    spec_parse_string(s@, cur + 1),
                )) by {
                    match spec_parse_string(s@, cur + 1) {
                        Some((p, j)) => {
                            assert(old_acc + (seq![c] + p) =~= acc@ + p);
                        },
                        None => {},
                    }
                }
            }
            cur = cur + 1;
        }
    }
}

/// Decodes one action object starting at `i`.
#[verifier::rlimit(60)]
fn parse_action(s: &str, i: usize) -> (r: Option<(SwipeAction, usize)>)
    requires
        i <= s@.len(),
    ensures
        match r {
            Some(aj) => spec_parse_action(s@, i as int) == Some((aj.0@, aj.1 as int)),
            None => spec_parse_action(s@, i as int) is None,
        },
{
    proof {
        reveal_strlit("{");
        reveal_strlit("}");
        reveal_strlit(":");
        reveal_strlit(",");
        reveal_strlit("\"");
    }
    let i0 = skip_ws(s, i);
    let i0b = match expect_lit(s, i0, "{") {
        Some(j) => j,
        None => {
            return None;
        },
    };
    let i1 = skip_ws(s, i0b);
    let i1b = match expect_lit(s, i1, "\"type\"") {
        Some(j) => j,
        None => {
            return None;
        },
    };
    let i2 = skip_ws(s, i1b);
    let i2b = match expect_lit(s, i2, ":") {
        Some(j) => j,
        None => {
            return None;
        },
    };
    let i3 = skip_ws(s, i2b);
    if let Some(j) = expect_lit(s, i3, "\"ARoll\"") {
        let i4 = skip_ws(s, j);
        return match expect_lit(s, i4, "}") {
            Some(j2) => Some((SwipeAction::ARoll, j2)),
            None => None,
        };
    }
    if let Some(j) = expect_lit(s, i3, "\"BRoll\"") {
        let i4 = skip_ws(s, j);
        return match expect_lit(s, i4, "}") {
            Some(j2) => Some((SwipeAction::BRoll, j2)),
            None => None,
        };
    }
    if let Some(j) = expect_lit(s, i3, "\"Delete\"") {
        let i4 = skip_ws(s, j);
        return match expect_lit(s, i4, "}") {
            Some(j2) => Some((SwipeAction::Delete, j2)),
            None => None,
        };
    }
    if let Some(j) = expect_lit(s, i3, "\"Skip\"") {
        let i4 = skip_ws(s, j);
        return match expect_lit(s, i4, "}") {
            Some(j2) => Some((SwipeAction::Skip, j2)),
            None => None,
        };
    }
    let j = match expect_lit(s, i3, "\"custom_folder\"") {
        Some(j) => j,
        None => {
            return None;
        },
    };
    let i4 = skip_ws(s, j);
    let i4b = match expect_lit(s, i4, ",") {
        Some(j2) => j2,
        None => {
            return None;
        },
    };
    let i5 = skip_ws(s, i4b);
    let i5b = match expect_lit(s, i5, "\"path\"") {
        Some(j2) => j2,
        None => {
            return None;
        },
    };
    let i6 = skip_ws(s, i5b);
    let i6b = match expect_lit(s, i6, ":") {
        Some(j2) => j2,
        None => {
            return None;
        },
    };
    let i7 = skip_ws(s, i6b);
    let i7b = match expect_lit(s, i7, "\"") {
        Some(j2) => j2,
        None => {
            return None;
        },
    };
    let (path, j2) = match parse_string_body(s, i7b) {
        Some(pj) => pj,
        None => {
            return None;
        },
    };
    proof {
        if spec_parse_string(s@, i7b as int) is Some {
            lemma_parse_string_in_bounds(s@, i7b as int);
        }
    }
    let j3 = skip_ws(s, j2);
    match expect_lit(s, j3, "}") {
        Some(j4) => Some((SwipeAction::CustomFolder { path }, j4)),
        None => None,
    }
}

/// A successful string decode ends within the text.
proof fn lemma_parse_string_in_bounds(s: Seq<char>, i: int)
    requires
        spec_parse_string(s, i) is Some,
    ensures
        match spec_parse_string(s, i) {
            Some((p, j)) => i < j <= s.len(),
            None => true,
        },
    decreases s.len() - i,
{
    if i < 0 || i >= s.len() {
    } else if s[i] == '"' {
    } else if s[i] == '\\' {
        if i + 1 >= s.len() {
        } else if s[i + 1] == 'u' {
            if i + 6 <= s.len() && spec_parse_string(s, i + 6) is Some {
                lemma_parse_string_in_bounds(s, i + 6);
            }
        } else {
            if spec_parse_string(s, i + 2) is Some {
                lemma_parse_string_in_bounds(s, i + 2);
            }
        }
    } else {
        if spec_parse_string(s, i + 1) is Some {
            lemma_parse_string_in_bounds(s, i + 1);
        }
    }
}

/// Decodes a configuration document.
#[verifier::rlimit(100)]
pub fn config_from_json(s: &str) -> (r: Result<OrganizerConfig, OrganizerError>)
    ensures
        match spec_parse_config(s@) {
            Some(cv) => match r {
                Ok(c) => c@ == cv,
                Err(_) => false,
            },
            None => r == Err::<OrganizerConfig, OrganizerError>(OrganizerError::ParseError),
        },
{
    proof {
        reveal_strlit("{");
        reveal_strlit("}");
        reveal_strlit(":");
        reveal_strlit(",");
    }
    let n = s.unicode_len();
    let i0 = skip_ws(s, 0);
    let i0b = match expect_lit(s, i0, "{") {
        Some(j) => j,
        None => {
            return Err(OrganizerError::ParseError);
        },
    };
    let i1 = skip_ws(s, i0b);
    let i1b = match expect_lit(s, i1, "\"swipe\"") {
        Some(j) => j,
        None => {
            return Err(OrganizerError::ParseError);
        },
    };
    let i2 = skip_ws(s, i1b);
    let i2b = match expect_lit(s, i2, ":") {
        Some(j) => j,
        None => {
            return Err(OrganizerError::ParseError);
        },
    };
    let i3 = skip_ws(s, i2b);
    let i3b = match expect_lit(s, i3, "{") {
        Some(j) => j,
        None => {
            return Err(OrganizerError::ParseError);
        },
    };
    let i4 = skip_ws(s, i3b);
    let i4b = match expect_lit(s, i4, "\"up\"") {
        Some(j) => j,
        None => {
            return Err(OrganizerError::ParseError);
        },
    };
    let i5 = skip_ws(s, i4b);
    let i5b = match expect_lit(s, i5, ":") {
        Some(j) => j,
        None => {
            return Err(OrganizerError::ParseError);
        },
    };
    let (up, j1) = match parse_action(s, i5b) {
        Some(x) => x,
        None => {
            return Err(OrganizerError::ParseError);
        },
    };
    proof {
        lemma_parse_action_in_bounds(s@, i5b as int);
    }
    let k1 = skip_ws(s, j1);
    let k1b = match expect_lit(s, k1, ",") {
        Some(j) => j,
        None => {
            return Err(OrganizerError::ParseError);
        },
    };
    let k2 = skip_ws(s, k1b);
    let k2b = match expect_lit(s, k2, "\"down\"") {
        Some(j) => j,
        None => {
            return Err(OrganizerError::ParseError);
        },
    };
    let k3 = skip_ws(s, k2b);
    let k3b = match expect_lit(s, k3, ":") {
        Some(j) => j,
        None => {
            return Err(OrganizerError::ParseError);
        },
    };
    let (down, j2) = match parse_action(s, k3b) {
        Some(x) => x,
        None => {
            return Err(OrganizerError::ParseError);
        },
    };
    proof {
        lemma_parse_action_in_bounds(s@, k3b as int);
    }
    let l1 = skip_ws(s, j2);
    let l1b = match expect_lit(s, l1, ",") {
        Some(j) => j,
        None => {
            return Err(OrganizerError::ParseError);
        },
    };
    let l2 = skip_ws(s, l1b);
    let l2b = match expect_lit(s, l2, "\"left\"") {
        Some(j) => j,
        None => {
            return Err(OrganizerError::ParseError);
        },
    };
    let l3 = skip_ws(s, l2b);
    let l3b = match expect_lit(s, l3, ":") {
        Some(j) => j,
        None => {
            return Err(OrganizerError::ParseError);
        },
    };
    let (left, j3) = match parse_action(s, l3b) {
        Some(x) => x,
        None => {
            return Err(OrganizerError::ParseError);
        },
    };
    proof {
        lemma_parse_action_in_bounds(s@, l3b as int);
    }
    let m1 = skip_ws(s, j3);
    let m1b = match expect_lit(s, m1, ",") {
        Some(j) => j,
        None => {
            return Err(OrganizerError::ParseError);
        },
    };
    let m2 = skip_ws(s, m1b);
    let m2b = match expect_lit(s, m2, "\"right\"") {
        Some(j) => j,
        None => {
            return Err(OrganizerError::ParseError);
        },
    };
    let m3 = skip_ws(s, m2b);
    let m3b = match expect_lit(s, m3, ":") {
        Some(j) => j,
        None => {
            return Err(OrganizerError::ParseError);
        },
    };
    let (right, j4) = match parse_action(s, m3b) {
        Some(x) => x,
        None => {
            return Err(OrganizerError::ParseError);
        },
    };
    proof {
        lemma_parse_action_in_bounds(s@, m3b as int);
    }
    let e1 = skip_ws(s, j4);
    let e1b = match expect_lit(s, e1, "}") {
        Some(j) => j,
        None => {
            return Err(OrganizerError::ParseError);
        },
    };
    let e2 = skip_ws(s, e1b);
    let e2b = match expect_lit(s, e2, "}") {
        Some(j) => j,
        None => {
            return Err(OrganizerError::ParseError);
        },
    };
    let e3 = skip_ws(s, e2b);
    if e3 != n {
        return Err(OrganizerError::ParseError);
    }
    Ok(OrganizerConfig { swipe: SwipeConfig { up, down, left, right } })
}

/// A successful action decode ends within the text.
proof fn lemma_parse_action_in_bounds(s: Seq<char>, i: int)
    requires
        0 <= i <= s.len(),
    ensures
        match spec_parse_action(s, i) {
            Some((a, j)) => j <= s.len(),
            None => true,
        },
{
    reveal_strlit("{");
    reveal_strlit("}");
    reveal_strlit(":");
    reveal_strlit(",");
    reveal_strlit("\"");
    lemma_ws_end_bounds(s, i);
    match spec_parse_action(s, i) {
        Some((a, j)) => {
            let i0 = ws_end(s, i);
            let i1 = ws_end(s, i0 + 1);
            lemma_ws_end_bounds(s, i0 + 1);
            let i2 = ws_end(s, i1 + "\"type\""@.len());
            lemma_ws_end_bounds(s, i1 + "\"type\""@.len());
            let i3 = ws_end(s, i2 + 1);
            lemma_ws_end_bounds(s, i2 + 1);
            if matches_at(s, i3, "\"ARoll\""@) {
                lemma_ws_end_bounds(s, i3 + "\"ARoll\""@.len());
            } else if matches_at(s, i3, "\"BRoll\""@) {
                lemma_ws_end_bounds(s, i3 + "\"BRoll\""@.len());
            } else if matches_at(s, i3, "\"Delete\""@) {
                lemma_ws_end_bounds(s, i3 + "\"Delete\""@.len());
            } else if matches_at(s, i3, "\"Skip\""@) {
                lemma_ws_end_bounds(s, i3 + "\"Skip\""@.len());
            } else {
                let i4 = ws_end(s, i3 + "\"custom_folder\""@.len());
                lemma_ws_end_bounds(s, i3 + "\"custom_folder\""@.len());
                let i5 = ws_end(s, i4 + 1);
                lemma_ws_end_bounds(s, i4 + 1);
                let i6 = ws_end(s, i5 + "\"path\""@.len());
                lemma_ws_end_bounds(s, i5 + "\"path\""@.len());
                let i7 = ws_end(s, i6 + 1);
                lemma_ws_end_bounds(s, i6 + 1);
                match spec_parse_string(s, i7 + 1) {
                    Some((p, jp)) => {
                        lemma_parse_string_in_bounds(s, i7 + 1);
                        lemma_ws_end_bounds(s, jp);
                    },
                    None => {},
                }
            }
        },
        None => {},
    }
}

/// The loading decision of the config store: an absent file is the expected
/// case and yields the structural default; a present file must decode, and a
/// malformed one is a hard `ParseError`, never replaced by defaults.
pub fn config_of_loaded(contents: Option<&str>) -> (r: Result<OrganizerConfig, OrganizerError>)
    ensures
        contents is None ==> match r {
            Ok(c) => c@ == default_swipe_config_view(),
            Err(_) => false,
        },
        match contents {
            Some(s) => match spec_parse_config(s@) {
                Some(cv) => match r {
                    Ok(c) => c@ == cv,
                    Err(_) => false,
                },
                None => r == Err::<OrganizerConfig, OrganizerError>(OrganizerError::ParseError),
            },
            None => true,
        },
{
    match contents {
        None => Ok(OrganizerConfig::default()),
        Some(s) => config_from_json(s),
    }
}

/// The config file path under a writable application-data root.
pub fn organizer_config_path(app_data_root: &str) -> (r: String)
    ensures
        r@ == crate::pathops::spec_join(app_data_root@, "organizer_config.json"@),
{
    crate::pathops::join_path(app_data_root, "organizer_config.json")
}

/// The temporary sibling a save writes first; the finished document is then
/// renamed over the final path in one atomic step.
pub fn temp_sibling_path(path: &str) -> (r: String)
    ensures
        r@ == path@ + ".tmp"@,
{
    let mut out = String::from_str(path);
    out.append(".tmp");
    out
}

/// Reading a hexadecimal digit back gives the nibble.
proof fn lemma_hex_digit_round(d: int)
    requires
        0 <= d < 16,
    ensures
        hex_val(hex_digit(d)) == Some(d),
{
}

/// The string decoder accepts an escaped body followed by a closing quote,
/// and decodes it back exactly.
proof fn lemma_parse_string_esc(s: Seq<char>, i: int, p: Seq<char>)
    requires
        matches_at(s, i, esc(p) + seq!['"']),
    ensures
        spec_parse_string(s, i) == Some((p, i + esc(p).len() + 1)),
    decreases p.len(),
{
    if p.len() == 0 {
        assert(esc(p) + seq!['"'] =~= seq!['"']);
        assert(s.subrange(i, i + 1)[0] == '"');
        assert(s[i] == '"');
        assert(spec_parse_string(s, i) == Some((Seq::<char>::empty(), i + 1)));
        assert(p =~= Seq::<char>::empty());
    } else {
        let c = p[0];
        let p2 = p.drop_first();
        assert(p =~= seq![c] + p2);
        lemma_esc_concat(seq![c], p2);
        lemma_esc_single(c);
        assert(esc(p) == esc_char(c) + esc(p2));
        let rest = esc(p2) + seq!['"'];
        assert(esc(p) + seq!['"'] =~= esc_char(c) + rest);
        lemma_matches_at_concat(s, i, esc_char(c), rest);
        if c == '"' || c == '\\' {
            assert(s.subrange(i, i + 2)[0] == '\\');
            assert(s.subrange(i, i + 2)[1] == c);
            assert(s[i] == '\\' && s[i + 1] == c);
            assert(s[i + 1] != 'u');
            assert(unescape_char(c) == Some(c));
            lemma_parse_string_esc(s, i + 2, p2);
            assert(spec_parse_string(s, i) == Some((seq![c] + p2, i + 2 + esc(p2).len() + 1)));
        } else if c == '\u{8}' || c == '\u{c}' || c == '\n' || c == '\r' || c == '\t' {
            let m = esc_char(c)[1];
            assert(s.subrange(i, i + 2)[0] == '\\');
            assert(s.subrange(i, i + 2)[1] == m);
            assert(s[i] == '\\' && s[i + 1] == m);
            assert(m != 'u');
            assert(unescape_char(m) == Some(c));
            lemma_parse_string_esc(s, i + 2, p2);
            assert(spec_parse_string(s, i) == Some((seq![c] + p2, i + 2 + esc(p2).len() + 1)));
        } else if (c as u32) < 32 {
            let code = (c as u32) as int;
            assert(s.subrange(i, i + 6)[0] == '\\');
            assert(s.subrange(i, i + 6)[1] == 'u');
            assert(s.subrange(i, i + 6)[2] == '0');
            assert(s.subrange(i, i + 6)[3] == '0');
            assert(s.subrange(i, i + 6)[4] == hex_digit(code / 16));
            assert(s.subrange(i, i + 6)[5] == hex_digit(code % 16));
            assert(s[i] == '\\' && s[i + 1] == 'u');
            lemma_hex_digit_round(code / 16);
            lemma_hex_digit_round(code % 16);
            assert(hex_val('0') == Some(0int));
            let v = 0 * 4096 + 0 * 256 + (code / 16) * 16 + code % 16;
            assert(v == code);
            assert(v < 0xD800);
            vstd::utf8::char_u32_cast(c, c as u32);
            assert((v as u32) as char == c);
            lemma_parse_string_esc(s, i + 6, p2);
            assert(spec_parse_string(s, i) == Some((seq![c] + p2, i + 6 + esc(p2).len() + 1)));
        } else {
            assert(esc_char(c) =~= seq![c]);
            assert(s.subrange(i, i + 1)[0] == c);
            assert(s[i] == c);
            lemma_parse_string_esc(s, i + 1, p2);
            assert(spec_parse_string(s, i) == Some((seq![c] + p2, i + 1 + esc(p2).len() + 1)));
        }
    }
}

/// The action decoder accepts each canonical action text, wherever it
/// stands, and decodes it back exactly.
#[verifier::rlimit(80)]
proof fn lemma_parse_action_canonical(s: Seq<char>, i: int, a: ActionView)
    requires
        matches_at(s, i, spec_action_json(a)),
    ensures
        spec_parse_action(s, i) == Some((a, i + spec_action_json(a).len())),
{
    reveal_strlit("{");
    reveal_strlit("}");
    reveal_strlit(":");
    reveal_strlit(",");
    reveal_strlit("\"");
    reveal_strlit("\"type\"");
    reveal_strlit("\"ARoll\"");
    reveal_strlit("\"BRoll\"");
    reveal_strlit("\"Delete\"");
    reveal_strlit("\"Skip\"");
    reveal_strlit("\"custom_folder\"");
    reveal_strlit("\"path\"");
    reveal_strlit("{\"type\":\"ARoll\"}");
    reveal_strlit("{\"type\":\"BRoll\"}");
    reveal_strlit("{\"type\":\"Delete\"}");
    reveal_strlit("{\"type\":\"Skip\"}");
    reveal_strlit("{\"type\":\"custom_folder\",\"path\":\"");
    reveal_strlit("\"}");
    let t_open = "{"@;
    let t_type = "\"type\""@;
    let t_colon = ":"@;
    match a {
        ActionView::ARoll => {
            lemma_parse_action_fixed(s, i, a, "\"ARoll\""@, "{\"type\":\"ARoll\"}"@);
        },
        ActionView::BRoll => {
            lemma_parse_action_fixed(s, i, a, "\"BRoll\""@, "{\"type\":\"BRoll\"}"@);
        },
        ActionView::Delete => {
            lemma_parse_action_fixed(s, i, a, "\"Delete\""@, "{\"type\":\"Delete\"}"@);
        },
        ActionView::Skip => {
            lemma_parse_action_fixed(s, i, a, "\"Skip\""@, "{\"type\":\"Skip\"}"@);
        },
        ActionView::CustomFolder { path } => {
            let t_tag = "\"custom_folder\""@;
            let t_path = "\"path\""@;
            let t_quote = "\""@;
            let lit_a = "{\"type\":\"custom_folder\",\"path\":\""@;
            let body = esc(path) + seq!['"'];
            assert(spec_action_json(a) =~= lit_a + (body + seq!['}']));
            lemma_matches_at_concat(s, i, lit_a, body + seq!['}']);
            assert(lit_a =~= t_open + (t_type + (t_colon + (t_tag + (","@ + (t_path + (t_colon
                + t_quote)))))));
            lemma_matches_at_concat(s, i, t_open, t_type + (t_colon + (t_tag + (","@ + (t_path
                + (t_colon + t_quote))))));
            let q1 = i + 1;
            lemma_matches_at_concat(s, q1, t_type, t_colon + (t_tag + (","@ + (t_path + (t_colon
                + t_quote)))));
            let q2 = q1 + 6;
            lemma_matches_at_concat(s, q2, t_colon, t_tag + (","@ + (t_path + (t_colon
                + t_quote))));
            let q3 = q2 + 1;
            lemma_matches_at_concat(s, q3, t_tag, ","@ + (t_path + (t_colon + t_quote)));
            let q4 = q3 + 15;
            lemma_matches_at_concat(s, q4, ","@, t_path + (t_colon + t_quote));
            let q5 = q4 + 1;
            lemma_matches_at_concat(s, q5, t_path, t_colon + t_quote);
            let q6 = q5 + 6;
            lemma_matches_at_concat(s, q6, t_colon, t_quote);
            let q7 = q6 + 1;
            let q8 = q7 + 1;
            lemma_matches_at_concat(s, q8, body, seq!['}']);
            assert(s[i] == '{') by {
                assert(s.subrange(i, i + 1)[0] == '{');
            }
            assert(s[q1] == '"') by {
                assert(s.subrange(q1, q1 + 6)[0] == '"');
            }
            assert(s[q2] == ':') by {
                assert(s.subrange(q2, q2 + 1)[0] == ':');
            }
            assert(s[q3] == '"') by {
                assert(s.subrange(q3, q3 + 15)[0] == '"');
            }
            assert(s[q3 + 1] == 'c') by {
                assert(s.subrange(q3, q3 + 15)[1] == 'c');
            }
            assert(s[q4] == ',') by {
                assert(s.subrange(q4, q4 + 1)[0] == ',');
            }
            assert(s[q5] == '"') by {
                assert(s.subrange(q5, q5 + 6)[0] == '"');
            }
            assert(s[q6] == ':') by {
                assert(s.subrange(q6, q6 + 1)[0] == ':');
            }
            assert(s[q7] == '"') by {
                assert(s.subrange(q7, q7 + 1)[0] == '"');
            }
            assert(!matches_at(s, q3, "\"ARoll\""@)) by {
                if matches_at(s, q3, "\"ARoll\""@) {
                    assert(s.subrange(q3, q3 + 7)[1] == 'A');
                }
            }
            assert(!matches_at(s, q3, "\"BRoll\""@)) by {
                if matches_at(s, q3, "\"BRoll\""@) {
                    assert(s.subrange(q3, q3 + 7)[1] == 'B');
                }
            }
            assert(!matches_at(s, q3, "\"Delete\""@)) by {
                if matches_at(s, q3, "\"Delete\""@) {
                    assert(s.subrange(q3, q3 + 8)[1] == 'D');
                }
            }
            assert(!matches_at(s, q3, "\"Skip\""@)) by {
                if matches_at(s, q3, "\"Skip\""@) {
                    assert(s.subrange(q3, q3 + 6)[1] == 'S');
                }
            }
            lemma_parse_string_esc(s, q8, path);
            let jend = q8 + esc(path).len() + 1;
            assert(matches_at(s, jend, "}"@)) by {
                assert("}"@ =~= seq!['}']);
            }
            assert(s[jend] == '}') by {
                assert(s.subrange(jend, jend + 1)[0] == '}');
            }
            assert(spec_parse_action(s, i) == Some((a, jend + 1)));
            assert(jend + 1 == i + spec_action_json(a).len());
        },
    }
}

/// The shared argument for the four fixed action variants: their canonical
/// texts all read `{"type":"<tag>"}` and decode back exactly.
proof fn lemma_parse_action_fixed(s: Seq<char>, i: int, a: ActionView, tag: Seq<char>, json: Seq<
    char,
>)
    requires
        matches_at(s, i, spec_action_json(a)),
        spec_action_json(a) == json,
        json =~= "{"@ + ("\"type\""@ + (":"@ + (tag + "}"@))),
        tag.len() >= 2,
        tag[0] == '"',
        (a is ARoll && tag == "\"ARoll\""@) || (a is BRoll && tag == "\"BRoll\""@) || (a is Delete
            && tag == "\"Delete\""@) || (a is Skip && tag == "\"Skip\""@),
        "{"@ =~= seq!['{'],
        ":"@ =~= seq![':'],
        "}"@ =~= seq!['}'],
        "\"type\""@.len() == 6,
        "\"type\""@[0] == '"',
        "\"ARoll\""@.len() == 7,
        "\"ARoll\""@[1] == 'A',
        "\"BRoll\""@.len() == 7,
        "\"BRoll\""@[1] == 'B',
        "\"Delete\""@.len() == 8,
        "\"Delete\""@[1] == 'D',
        "\"Skip\""@.len() == 6,
        "\"Skip\""@[1] == 'S',
    ensures
        spec_parse_action(s, i) == Some((a, i + spec_action_json(a).len())),
{
    let t_type = "\"type\""@;
    let t_colon = ":"@;
    let t_close = "}"@;
    lemma_matches_at_concat(s, i, "{"@, t_type + (t_colon + (tag + t_close)));
    let q1 = i + 1;
    lemma_matches_at_concat(s, q1, t_type, t_colon + (tag + t_close));
    let q2 = q1 + 6;
    lemma_matches_at_concat(s, q2, t_colon, tag + t_close);
    let q3 = q2 + 1;
    lemma_matches_at_concat(s, q3, tag, t_close);
    let q4 = q3 + tag.len() as int;
    assert(s[i] == '{') by {
        assert(s.subrange(i, i + 1)[0] == '{');
    }
    assert(s[q1] == '"') by {
        assert(s.subrange(q1, q1 + 6)[0] == '"');
    }
    assert(s[q2] == ':') by {
        assert(s.subrange(q2, q2 + 1)[0] == ':');
    }
    assert(s[q3] == '"') by {
        assert(s.subrange(q3, q3 + tag.len())[0] == tag[0]);
    }
    assert(s[q3 + 1] == tag[1]) by {
        assert(s.subrange(q3, q3 + tag.len())[1] == tag[1]);
    }
    assert(s[q4] == '}') by {
        assert(s.subrange(q4, q4 + 1)[0] == '}');
    }
    if !(a is ARoll) {
        assert(!matches_at(s, q3, "\"ARoll\""@)) by {
            if matches_at(s, q3, "\"ARoll\""@) {
                assert(s.subrange(q3, q3 + 7)[1] == 'A');
            }
        }
    }
    if !(a is ARoll) && !(a is BRoll) {
        assert(!matches_at(s, q3, "\"BRoll\""@)) by {
            if matches_at(s, q3, "\"BRoll\""@) {
                assert(s.subrange(q3, q3 + 7)[1] == 'B');
            }
        }
    }
    if !(a is ARoll) && !(a is BRoll) && !(a is Delete) {
        assert(!matches_at(s, q3, "\"Delete\""@)) by {
            if matches_at(s, q3, "\"Delete\""@) {
                assert(s.subrange(q3, q3 + 8)[1] == 'D');
            }
        }
    }
    assert(spec_parse_action(s, i) == Some((a, q4 + 1)));
    assert(q4 + 1 == i + spec_action_json(a).len());
}

/// The canonical header reads as its six tokens, with no whitespace
/// between them.
#[verifier::rlimit(100)]
proof fn lemma_config_header_tokens(s: Seq<char>)
    requires
        matches_at(s, 0, "{\"swipe\":{\"up\":"@),
    ensures
        ws_end(s, 0) == 0,
        matches_at(s, 0, "{"@),
        ws_end(s, 1) == 1,
        matches_at(s, 1, "\"swipe\""@),
        ws_end(s, 8) == 8,
        matches_at(s, 8, ":"@),
        ws_end(s, 9) == 9,
        matches_at(s, 9, "{"@),
        ws_end(s, 10) == 10,
        matches_at(s, 10, "\"up\""@),
        ws_end(s, 14) == 14,
        matches_at(s, 14, ":"@),
{
    reveal_strlit("{");
    reveal_strlit(":");
    reveal_strlit("\"swipe\"");
    reveal_strlit("\"up\"");
    reveal_strlit("{\"swipe\":{\"up\":");
    let h = "{\"swipe\":{\"up\":"@;
    assert(h =~= "{"@ + ("\"swipe\""@ + (":"@ + ("{"@ + ("\"up\""@ + ":"@)))));
    lemma_matches_at_concat(s, 0, "{"@, "\"swipe\""@ + (":"@ + ("{"@ + ("\"up\""@ + ":"@))));
    lemma_matches_at_concat(s, 1, "\"swipe\""@, ":"@ + ("{"@ + ("\"up\""@ + ":"@)));
    lemma_matches_at_concat(s, 8, ":"@, "{"@ + ("\"up\""@ + ":"@));
    lemma_matches_at_concat(s, 9, "{"@, "\"up\""@ + ":"@);
    lemma_matches_at_concat(s, 10, "\"up\""@, ":"@);
    assert(s[0] == '{') by {
        assert(s.subrange(0, 1)[0] == '{');
    }
    assert(s[1] == '"') by {
        assert(s.subrange(1, 8)[0] == '"');
    }
    assert(s[8] == ':') by {
        assert(s.subrange(8, 9)[0] == ':');
    }
    assert(s[9] == '{') by {
        assert(s.subrange(9, 10)[0] == '{');
    }
    assert(s[10] == '"') by {
        assert(s.subrange(10, 14)[0] == '"');
    }
    assert(s[14] == ':') by {
        assert(s.subrange(14, 15)[0] == ':');
    }
}

/// Round trip: decoding the canonical document of any configuration gives
/// that configuration back. `save` followed by `load` is the identity.
#[verifier::rlimit(100)]
pub proof fn lemma_config_json_round_trip(c: SwipeConfigView)
    ensures
        spec_parse_config(spec_config_json(c)) == Some(c),
{
    reveal_strlit("{");
    reveal_strlit("}");
    reveal_strlit(":");
    reveal_strlit(",");
    reveal_strlit("\"swipe\"");
    reveal_strlit("\"up\"");
    reveal_strlit("\"down\"");
    reveal_strlit("\"left\"");
    reveal_strlit("\"right\"");
    reveal_strlit("{\"swipe\":{\"up\":");
    reveal_strlit(",\"down\":");
    reveal_strlit(",\"left\":");
    reveal_strlit(",\"right\":");
    reveal_strlit("}}");
    let s = spec_config_json(c);
    let h = "{\"swipe\":{\"up\":"@;
    let x1 = spec_action_json(c.up);
    let rest = ",\"down\":"@ + (spec_action_json(c.down) + (",\"left\":"@ + (spec_action_json(
        c.left,
    ) + (",\"right\":"@ + (spec_action_json(c.right) + "}}"@)))));
    assert(s =~= h + (x1 + rest));
    assert(matches_at(s, 0, s)) by {
        assert(s.subrange(0, s.len() as int) =~= s);
    }
    lemma_matches_at_concat(s, 0, h, x1 + rest);
    let i1 = h.len() as int;
    lemma_matches_at_concat(s, i1, x1, rest);
    let j1 = i1 + x1.len() as int;
    lemma_config_header_tokens(s);
    lemma_parse_action_canonical(s, i1, c.up);
    lemma_config_rest_round_trip(s, j1, c);
    assert(spec_parse_config(s) == Some(
        SwipeConfigView { up: c.up, down: c.down, left: c.left, right: c.right },
    ));
    assert(SwipeConfigView { up: c.up, down: c.down, left: c.left, right: c.right } == c);
}

/// The document after the `up` action decodes back to the three remaining
/// bindings and the closing braces.
#[verifier::rlimit(100)]
proof fn lemma_config_rest_round_trip(s: Seq<char>, j1: int, c: SwipeConfigView)
    requires
        matches_at(
            s,
            j1,
            ",\"down\":"@ + (spec_action_json(c.down) + (",\"left\":"@ + (spec_action_json(c.left)
                + (",\"right\":"@ + (spec_action_json(c.right) + "}}"@))))),
        ),
        j1 + (",\"down\":"@ + (spec_action_json(c.down) + (",\"left\":"@ + (spec_action_json(
            c.left,
        ) + (",\"right\":"@ + (spec_action_json(c.right) + "}}"@)))))).len() == s.len(),
    ensures
        spec_parse_config_rest(s, j1, c.up) == Some(
            SwipeConfigView { up: c.up, down: c.down, left: c.left, right: c.right },
        ),
{
    reveal_strlit("{");
    reveal_strlit("}");
    reveal_strlit(":");
    reveal_strlit(",");
    reveal_strlit("\"down\"");
    reveal_strlit("\"left\"");
    reveal_strlit("\"right\"");
    reveal_strlit(",\"down\":");
    reveal_strlit(",\"left\":");
    reveal_strlit(",\"right\":");
    reveal_strlit("}}");
    let d1 = ",\"down\":"@;
    let x2 = spec_action_json(c.down);
    let d2 = ",\"left\":"@;
    let x3 = spec_action_json(c.left);
    let d3 = ",\"right\":"@;
    let x4 = spec_action_json(c.right);
    let tail = "}}"@;
    lemma_matches_at_concat(s, j1, d1, x2 + (d2 + (x3 + (d3 + (x4 + tail)))));
    let i2 = j1 + d1.len() as int;
    lemma_matches_at_concat(s, i2, x2, d2 + (x3 + (d3 + (x4 + tail))));
    let j2 = i2 + x2.len() as int;
    lemma_matches_at_concat(s, j2, d2, x3 + (d3 + (x4 + tail)));
    let i3 = j2 + d2.len() as int;
    lemma_matches_at_concat(s, i3, x3, d3 + (x4 + tail));
    let j3 = i3 + x3.len() as int;
    lemma_matches_at_concat(s, j3, d3, x4 + tail);
    let i4 = j3 + d3.len() as int;
    lemma_matches_at_concat(s, i4, x4, tail);
    let j4 = i4 + x4.len() as int;
    assert(d1 =~= ","@ + ("\"down\""@ + ":"@));
    lemma_matches_at_concat(s, j1, ","@, "\"down\""@ + ":"@);
    lemma_matches_at_concat(s, j1 + 1, "\"down\""@, ":"@);
    assert(s[j1] == ',') by {
        assert(s.subrange(j1, j1 + 1)[0] == ',');
    }
    assert(s[j1 + 1] == '"') by {
        assert(s.subrange(j1 + 1, j1 + 7)[0] == '"');
    }
    assert(s[j1 + 7] == ':') by {
        assert(s.subrange(j1 + 7, j1 + 8)[0] == ':');
    }
    assert(d2 =~= ","@ + ("\"left\""@ + ":"@));
    lemma_matches_at_concat(s, j2, ","@, "\"left\""@ + ":"@);
    lemma_matches_at_concat(s, j2 + 1, "\"left\""@, ":"@);
    assert(s[j2] == ',') by {
        assert(s.subrange(j2, j2 + 1)[0] == ',');
    }
    assert(s[j2 + 1] == '"') by {
        assert(s.subrange(j2 + 1, j2 + 7)[0] == '"');
    }
    assert(s[j2 + 7] == ':') by {
        assert(s.subrange(j2 + 7, j2 + 8)[0] == ':');
    }
    assert(d3 =~= ","@ + ("\"right\""@ + ":"@));
    lemma_matches_at_concat(s, j3, ","@, "\"right\""@ + ":"@);
    lemma_matches_at_concat(s, j3 + 1, "\"right\""@, ":"@);
    assert(s[j3] == ',') by {
        assert(s.subrange(j3, j3 + 1)[0] == ',');
    }
    assert(s[j3 + 1] == '"') by {
        assert(s.subrange(j3 + 1, j3 + 8)[0] == '"');
    }
    assert(s[j3 + 8] == ':') by {
        assert(s.subrange(j3 + 8, j3 + 9)[0] == ':');
    }
    assert(tail =~= "}"@ + "}"@);
    lemma_matches_at_concat(s, j4, "}"@, "}"@);
    assert(s[j4] == '}') by {
        assert(s.subrange(j4, j4 + 1)[0] == '}');
    }
    assert(s[j4 + 1] == '}') by {
        assert(s.subrange(j4 + 1, j4 + 2)[0] == '}');
    }
    lemma_parse_action_canonical(s, i2, c.down);
    lemma_parse_action_canonical(s, i3, c.left);
    lemma_parse_action_canonical(s, i4, c.right);
    assert(j4 + 2 == s.len());
}

/// The temporary sibling is never the final path itself, so an interrupted
/// save can leave a stray temporary behind but never a truncated document
/// at the final path.
pub proof fn lemma_temp_sibling_distinct(p: Seq<char>)
    ensures
        p + ".tmp"@ != p,
{
    reveal_strlit(".tmp");
    assert((p + ".tmp"@).len() == p.len() + 4);
}

/// The canonical encoding is injective: distinct configurations never share
/// a document.
pub proof fn lemma_config_json_injective(c1: SwipeConfigView, c2: SwipeConfigView)
    requires
        spec_config_json(c1) == spec_config_json(c2),
    ensures
        c1 == c2,
{
    lemma_config_json_round_trip(c1);
    lemma_config_json_round_trip(c2);
}

} // verus!
