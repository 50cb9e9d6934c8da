//! The active-class indicator of a lobby.
//!
//! The game reports the classes in play as a raw string of digit tokens, each
//! ended by a semicolon. Every token maps to one of four fixed icon glyphs
//! (a token that names no class maps to a placeholder), and the indicator is
//! always exactly four glyphs wide: short lobbies are right-padded with the
//! empty-slot glyph, and anything beyond four tokens is not shown.

use vstd::prelude::*;

use crate::digits::is_dec_digit;

verus! {

/// One slot of the class indicator.
#[derive(Debug, Clone, Copy, PartialEq, Eq, Structural)]
pub enum ClassSlot {
    Driller,
    Engineer,
    Gunner,
    Scout,
    /// A digit token that names no class.
    Unknown,
    /// A slot not taken by any token.
    Empty,
}

/// The number of leading decimal-digit characters of `s`.
pub open spec fn lead_digits(s: Seq<char>) -> nat
    decreases s.len(),
{
    if s.len() > 0 && is_dec_digit(s[0]) {
        (1 + lead_digits(s.drop_first())) as nat
    } else {
        0
    }
}

/// The slot a single token names: the digits `0` to `3` name the four
/// classes, any other token is unknown.
pub open spec fn slot_of(token: Seq<char>) -> ClassSlot {
    if token == seq!['0'] {
        ClassSlot::Driller
    } else if token == seq!['1'] {
        ClassSlot::Engineer
    } else if token == seq!['2'] {
        ClassSlot::Gunner
    } else if token == seq!['3'] {
        ClassSlot::Scout
    } else {
        ClassSlot::Unknown
    }
}

/// The slots named by `s`, scanned left to right: a token is a maximal run
/// of digits immediately followed by a semicolon; everything else is
/// skipped.
pub open spec fn class_slots(s: Seq<char>) -> Seq<ClassSlot>
    decreases s.len(),
{
    if s.len() == 0 {
        Seq::empty()
    } else if is_dec_digit(s[0]) {
        let k = lead_digits(s);
        if k < s.len() && s[k as int] == ';' {
            seq![slot_of(s.take(k as int))] + class_slots(s.skip(k as int + 1))
        } else {
            // a leading digit makes the run at least one character long and
            // never longer than the string, so this always moves forward
            class_slots(s.skip(if 1 <= k && k <= s.len() {
                k as int
            } else {
                1
            }))
        }
    } else {
        class_slots(s.skip(1))
    }
}

/// The slots of `s` brought to exactly four: truncated past four, and padded
/// with empty slots below four.
pub open spec fn padded_slots(s: Seq<char>) -> Seq<ClassSlot> {
    let sl = class_slots(s);
    if sl.len() >= 4 {
        sl.take(4)
    } else {
        sl + Seq::new((4 - sl.len()) as nat, |i: int| ClassSlot::Empty)
    }
}

/// The icon glyph of a slot.
pub open spec fn glyph(c: ClassSlot) -> Seq<char> {
    match c {
        ClassSlot::Driller => "<:driller:964680901621612584>"@,
        ClassSlot::Engineer => "<:engineer:964680922920255548>"@,
        ClassSlot::Gunner => "<:gunner:964680948530704404>"@,
        ClassSlot::Scout => "<:scout:964680965521813524>"@,
        ClassSlot::Unknown => "<unknown>"@,
        ClassSlot::Empty => "<:empty:964681045347823616>"@,
    }
}

/// The glyphs of the slots `sl`, concatenated.
pub open spec fn render_slots(sl: Seq<ClassSlot>) -> Seq<char>
    decreases sl.len(),
{
    if sl.len() == 0 {
        Seq::empty()
    } else {
        render_slots(sl.drop_last()) + glyph(sl.last())
    }
}

/// The full class indicator for the raw class string `s`.
pub open spec fn class_indicator(s: Seq<char>) -> Seq<char> {
    render_slots(padded_slots(s))
}

/// The class indicator is always exactly four glyphs, whatever the raw
/// string holds.
pub proof fn lemma_class_indicator_four_slots(s: Seq<char>)
    ensures
        padded_slots(s).len() == 4,
{
}

/// A run of `k` digits with no digit after it is exactly the leading-digit
/// count.
proof fn lemma_lead_digits(t: Seq<char>, k: nat)
    requires
        k <= t.len(),
        forall|m: int| 0 <= m < k ==> is_dec_digit(#[trigger] t[m]),
        k == t.len() || !is_dec_digit(t[k as int]),
    ensures
        lead_digits(t) == k,
    decreases t.len(),
{
    if k == 0 {
    } else {
        assert(is_dec_digit(t[0]));
        assert(forall|m: int| 0 <= m < k - 1 ==> is_dec_digit(#[trigger] t.drop_first()[m])) by {
            assert(forall|m: int|
                0 <= m < k - 1 ==> #[trigger] t.drop_first()[m] == t[m + 1] && is_dec_digit(
                    t[m + 1],
                ));
        }
        if k < t.len() {
            assert(t.drop_first()[k - 1] == t[k as int]);
        }
        lemma_lead_digits(t.drop_first(), (k - 1) as nat);
    }
}

/// The slot of a one-character token, by its character.
proof fn lemma_slot_of_singleton(c: char)
    ensures
        slot_of(seq![c]) == (if c == '0' {
            ClassSlot::Driller
        } else if c == '1' {
            ClassSlot::Engineer
        } else if c == '2' {
            ClassSlot::Gunner
        } else if c == '3' {
            ClassSlot::Scout
        } else {
            ClassSlot::Unknown
        }),
{
    assert(seq![c].len() == 1);
    assert(seq![c][0] == c);
    assert(seq!['0'][0] == '0');
    assert(seq!['1'][0] == '1');
    assert(seq!['2'][0] == '2');
    assert(seq!['3'][0] == '3');
    if c == '0' {
        assert(seq![c] =~= seq!['0']);
    } else if c == '1' {
        assert(seq![c] =~= seq!['1']);
    } else if c == '2' {
        assert(seq![c] =~= seq!['2']);
    } else if c == '3' {
        assert(seq![c] =~= seq!['3']);
    }
}

/// A token longer than one character names no class.
proof fn lemma_slot_of_long(token: Seq<char>)
    requires
        token.len() != 1,
    ensures
        slot_of(token) == ClassSlot::Unknown,
{
    assert(seq!['0'].len() == 1);
    assert(seq!['1'].len() == 1);
    assert(seq!['2'].len() == 1);
    assert(seq!['3'].len() == 1);
}

/// Whether `c` is a decimal digit.
fn char_is_digit(c: char) -> (r: bool)
    ensures
        r == is_dec_digit(c),
{
    c >= '0' && c <= '9'
}

/// Scans the raw class string into its slots.
pub fn scan_class_slots(s: &str) -> (r: Vec<ClassSlot>)
    ensures
        r@ == class_slots(s@),
{
    let n = s.unicode_len();
    let mut out: Vec<ClassSlot> = Vec::new();
    let mut i: usize = 0;
    proof {
        assert(s@.skip(0) =~= s@);
    }
    while i < n
        invariant
            0 <= i <= n,
            n == s@.len(),
            out@ + class_slots(s@.skip(i as int)) == class_slots(s@),
        decreases n - i,
    {
        let c = s.get_char(i);
        let ghost t = s@.skip(i as int);
        proof {
            assert(t[0] == s@[i as int]);
        }
        if char_is_digit(c) {
            let mut j: usize = i + 1;
            while j < n && char_is_digit(s.get_char(j))
                invariant
                    i < j <= n,
                    n == s@.len(),
                    forall|m: int| i <= m < j ==> is_dec_digit(#[trigger] s@[m]),
                decreases n - j,
            {
                j = j + 1;
            }
            let ghost k = (j - i) as nat;
            proof {
                assert(forall|m: int| 0 <= m < k ==> #[trigger] t[m] == s@[i + m]);
                if j < n {
                    assert(t[k as int] == s@[j as int]);
                }
                lemma_lead_digits(t, k);
            }
            if j < n && s.get_char(j) == ';' {
                let run = j - i;
                let slot = if run == 1 {
                    if c == '0' {
                        ClassSlot::Driller
                    } else if c == '1' {
                        ClassSlot::Engineer
                    } else if c == '2' {
                        ClassSlot::Gunner
                    } else if c == '3' {
                        ClassSlot::Scout
                    } else {
                        ClassSlot::Unknown
                    }
                } else {
                    ClassSlot::Unknown
                };
                proof {
                    let token = t.take(k as int);
                    assert(token.len() == k);
                    if run == 1 {
                        assert(token =~= seq![c]);
                        lemma_slot_of_singleton(c);
                    } else {
                        lemma_slot_of_long(token);
                    }
                    assert(t[k as int] == ';');
                    assert(class_slots(t) == seq![slot_of(token)] + class_slots(
                        t.skip(k as int + 1),
                    ));
                    assert(t.skip(k as int + 1) =~= s@.skip(j as int + 1));
                    assert((out@ + seq![slot]) + class_slots(s@.skip(j as int + 1)) =~= out@ + (
                    seq![slot] + class_slots(s@.skip(j as int + 1))));
                }
                out.push(slot);
                i = j + 1;
            } else {
                proof {
                    if j < n {
                        assert(t[k as int] != ';');
                    }
                    assert(class_slots(t) == class_slots(t.skip(k as int)));
                    assert(t.skip(k as int) =~= s@.skip(j as int));
                }
                i = j;
            }
        } else {
            proof {
                assert(class_slots(t) == class_slots(t.skip(1)));
                assert(t.skip(1) =~= s@.skip(i as int + 1));
            }
            i = i + 1;
        }
    }
    proof {
        assert(s@.skip(n as int) =~= Seq::<char>::empty());
        assert(out@ =~= class_slots(s@));
    }
    out
}

/// The glyph text of a slot.
fn glyph_str(c: ClassSlot) -> (r: &'static str)
    ensures
        r@ == glyph(c),
{
    match c {
        ClassSlot::Driller => "<:driller:964680901621612584>",
        ClassSlot::Engineer => "<:engineer:964680922920255548>",
        ClassSlot::Gunner => "<:gunner:964680948530704404>",
        ClassSlot::Scout => "<:scout:964680965521813524>",
        ClassSlot::Unknown => "<unknown>",
        ClassSlot::Empty => "<:empty:964681045347823616>",
    }
}

/// Renders the class indicator for the raw class string `s`: always exactly
/// four glyphs, padded at the right with the empty-slot glyph.
pub fn format_classes(s: &str) -> (r: String)
    ensures
        r@ == class_indicator(s@),
{
    let mut slots = scan_class_slots(s);
    if slots.len() > 4 {
        slots.truncate(4);
        proof {
            assert(slots@ =~= padded_slots(s@));
        }
    }
    while slots.len() < 4
        invariant
            slots@.len() <= 4,
            (if class_slots(s@).len() >= 4 {
                slots@ =~= class_slots(s@).take(4)
            } else {
                class_slots(s@).len() <= slots@.len() && (forall|m: int|
                    0 <= m < slots@.len() ==> slots@[m] == (if m < class_slots(s@).len() {
                        class_slots(s@)[m]
                    } else {
                        ClassSlot::Empty
                    }))
            }),
        decreases 4 - slots@.len(),
    {
        slots.push(ClassSlot::Empty);
    }
    proof {
        assert(slots@ =~= padded_slots(s@));
    }
    let mut out = String::new();
    let mut k: usize = 0;
    while k < slots.len()
        invariant
            0 <= k <= slots@.len(),
            slots@ == padded_slots(s@),
            out@ == render_slots(slots@.take(k as int)),
        decreases slots@.len() - k,
    {
        proof {
            assert(slots@.take(k as int + 1).drop_last() =~= slots@.take(k as int));
            assert(slots@.take(k as int + 1).last() == slots@[k as int]);
        }
        out.append(glyph_str(slots[k]));
        k = k + 1;
    }
    proof {
        assert(slots@.take(slots@.len() as int) =~= slots@);
    }
    out
}

} // verus!
