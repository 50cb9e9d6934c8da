//! Rendering the mod list of a lobby snapshot into notification fields.
//!
//! Mods are grouped by category into one field per category. Each resolved
//! mod renders as a markdown link; a mod without a name or link renders as
//! the literal "Hidden mod". A field's text is capped: once the next entry
//! would leave no room, the field ends with a summary of how many entries
//! were not rendered, and the whole text never exceeds [`MOD_FIELD_CAP`]
//! characters.

use vstd::prelude::*;

use crate::digits::{dec_str, lemma_u64_dec_str_len, u64_to_dec_string};
use crate::webhook::WebhookField;

verus! {

/// A mod reference attached to a lobby snapshot: the mod id, the category the
/// game reported for it, and the display name and URL filled in by the
/// metadata enrichment, when that has happened. An absent category marks a
/// hidden or unresolved mod, which is a deliberate state of its own.
#[derive(Debug, Clone, PartialEq)]
pub struct ModRef {
    pub id: u64,
    pub category: Option<i32>,
    pub name: Option<String>,
    pub url: Option<String>,
}

/// A mod-category field never renders more characters than this.
pub const MOD_FIELD_CAP: usize = 1000;

/// An entry is admitted to a field only while the text stays below this
/// limit: the cap, less room for the longest possible overflow summary.
pub const MOD_FIELD_ENTRY_LIMIT: usize = 968;

/// How one mod renders: a markdown link when both name and URL are known,
/// else the hidden-mod placeholder.
pub open spec fn rendered_mod(m: ModRef) -> Seq<char> {
    if m.name is Some && m.url is Some {
        "["@ + m.name->0@ + "]("@ + m.url->0@ + ")"@
    } else {
        "Hidden mod"@
    }
}

/// The mods of `mods` whose category is exactly `category`, in order.
pub open spec fn filtered_mods(mods: Seq<ModRef>, category: i32) -> Seq<ModRef>
    decreases mods.len(),
{
    if mods.len() == 0 {
        Seq::empty()
    } else {
        let rest = filtered_mods(mods.drop_last(), category);
        if mods.last().category == Some(category) {
            rest.push(mods.last())
        } else {
            rest
        }
    }
}

/// The summary appended when `n` entries could not be rendered.
pub open spec fn overflow_suffix(n: nat) -> Seq<char> {
    "...and "@ + dec_str(n) + " more"@
}

/// The field text for the entries `ms`, appended to the text `acc` built so
/// far: entries are added each with a trailing newline until one would push
/// the text past the entry limit, at which point the overflow summary ends
/// the field.
pub open spec fn build_value(ms: Seq<ModRef>, acc: Seq<char>) -> Seq<char>
    decreases ms.len(),
{
    if ms.len() == 0 {
        acc
    } else {
        let e = rendered_mod(ms[0]);
        if acc.len() + e.len() + 1 > MOD_FIELD_ENTRY_LIMIT {
            acc + overflow_suffix(ms.len())
        } else {
            build_value(ms.drop_first(), acc + e + "\n"@)
        }
    }
}

/// The full field text for the mods of `mods` in category `category`.
pub open spec fn mod_field_value(mods: Seq<ModRef>, category: i32) -> Seq<char> {
    build_value(filtered_mods(mods, category), Seq::empty())
}

/// The entries of `ms` rendered in full, each with a trailing newline.
pub open spec fn rendered_entries(ms: Seq<ModRef>) -> Seq<char>
    decreases ms.len(),
{
    if ms.len() == 0 {
        Seq::empty()
    } else {
        rendered_mod(ms[0]) + "\n"@ + rendered_entries(ms.drop_first())
    }
}

/// A filter never keeps more mods than it was given.
pub proof fn lemma_filtered_mods_len(mods: Seq<ModRef>, category: i32)
    ensures
        filtered_mods(mods, category).len() <= mods.len(),
    decreases mods.len(),
{
    if mods.len() > 0 {
        lemma_filtered_mods_len(mods.drop_last(), category);
    }
}

/// Building onto a non-empty entry list always lengthens the text.
pub proof fn lemma_build_value_grows(ms: Seq<ModRef>, acc: Seq<char>)
    ensures
        build_value(ms, acc).len() >= acc.len(),
        ms.len() > 0 ==> build_value(ms, acc).len() > acc.len(),
    decreases ms.len(),
{
    reveal_strlit("...and ");
    reveal_strlit(" more");
    reveal_strlit("\n");
    if ms.len() > 0 {
        let e = rendered_mod(ms[0]);
        if acc.len() + e.len() + 1 > MOD_FIELD_ENTRY_LIMIT {
        } else {
            lemma_build_value_grows(ms.drop_first(), acc + e + "\n"@);
        }
    }
}

/// The built text never exceeds the cap, for any entry list a vector can
/// hold.
pub proof fn lemma_build_value_capped(ms: Seq<ModRef>, acc: Seq<char>)
    requires
        acc.len() <= MOD_FIELD_ENTRY_LIMIT,
        ms.len() <= u64::MAX,
    ensures
        build_value(ms, acc).len() <= MOD_FIELD_CAP,
    decreases ms.len(),
{
    reveal_strlit("...and ");
    reveal_strlit(" more");
    reveal_strlit("\n");
    if ms.len() > 0 {
        let e = rendered_mod(ms[0]);
        if acc.len() + e.len() + 1 > MOD_FIELD_ENTRY_LIMIT {
            lemma_u64_dec_str_len(ms.len());
        } else {
            lemma_build_value_capped(ms.drop_first(), acc + e + "\n"@);
        }
    }
}

/// A mod-category field's text stays within the character cap.
pub proof fn lemma_mod_field_within_cap(mods: Seq<ModRef>, category: i32)
    requires
        mods.len() <= u64::MAX,
    ensures
        mod_field_value(mods, category).len() <= MOD_FIELD_CAP,
{
    lemma_filtered_mods_len(mods, category);
    lemma_build_value_capped(filtered_mods(mods, category), Seq::empty());
}

/// The built text is some prefix of the entries rendered in full, followed,
/// exactly when entries were left out, by the overflow summary counting them.
pub proof fn lemma_build_value_shape(ms: Seq<ModRef>, acc: Seq<char>)
    ensures
        exists|k: int|
            0 <= k <= ms.len() && build_value(ms, acc) == acc + rendered_entries(ms.take(k)) + (
            if k == ms.len() {
                Seq::<char>::empty()
            } else {
                overflow_suffix((ms.len() - k) as nat)
            }),
    decreases ms.len(),
{
    if ms.len() == 0 {
        assert(build_value(ms, acc) == acc + rendered_entries(ms.take(0)) + Seq::<char>::empty())
            by {
            assert(acc + rendered_entries(ms.take(0)) + Seq::<char>::empty() =~= acc);
        }
    } else {
        let e = rendered_mod(ms[0]);
        if acc.len() + e.len() + 1 > MOD_FIELD_ENTRY_LIMIT {
            assert(build_value(ms, acc) == acc + rendered_entries(ms.take(0)) + overflow_suffix(
                ms.len(),
            )) by {
                assert(acc + rendered_entries(ms.take(0)) + overflow_suffix(ms.len()) =~= acc
                    + overflow_suffix(ms.len()));
            }
        } else {
            lemma_build_value_shape(ms.drop_first(), acc + e + "\n"@);
            let k0 = choose|k0: int|
                0 <= k0 <= ms.drop_first().len() && build_value(ms.drop_first(), acc + e + "\n"@)
                    == (acc + e + "\n"@) + rendered_entries(ms.drop_first().take(k0)) + (
                if k0 == ms.drop_first().len() {
                    Seq::<char>::empty()
                } else {
                    overflow_suffix((ms.drop_first().len() - k0) as nat)
                });
            let k = k0 + 1;
            assert(ms.take(k).drop_first() =~= ms.drop_first().take(k0));
            assert(rendered_entries(ms.take(k)) == rendered_mod(ms[0]) + "\n"@ + rendered_entries(
                ms.drop_first().take(k0),
            )) by {
                assert(ms.take(k).len() > 0);
                assert(ms.take(k)[0] == ms[0]);
            }
            assert((acc + e + "\n"@) + rendered_entries(ms.drop_first().take(k0)) =~= acc
                + rendered_entries(ms.take(k)));
            assert(build_value(ms, acc) == acc + rendered_entries(ms.take(k)) + (
            if k == ms.len() {
                Seq::<char>::empty()
            } else {
                overflow_suffix((ms.len() - k) as nat)
            }));
        }
    }
}

/// Whenever the field text was truncated, it ends with the overflow summary,
/// and the summary counts exactly the entries not rendered in full.
pub proof fn lemma_mod_field_truncation(mods: Seq<ModRef>, category: i32)
    ensures
        exists|k: int|
            0 <= k <= filtered_mods(mods, category).len() && mod_field_value(mods, category)
                == rendered_entries(filtered_mods(mods, category).take(k)) + (
            if k == filtered_mods(mods, category).len() {
                Seq::<char>::empty()
            } else {
                overflow_suffix((filtered_mods(mods, category).len() - k) as nat)
            }),
{
    let ms = filtered_mods(mods, category);
    lemma_build_value_shape(ms, Seq::empty());
    let k = choose|k: int|
        0 <= k <= ms.len() && build_value(ms, Seq::empty()) == Seq::empty() + rendered_entries(
            ms.take(k),
        ) + (
        if k == ms.len() {
            Seq::<char>::empty()
        } else {
            overflow_suffix((ms.len() - k) as nat)
        });
    assert(Seq::empty() + rendered_entries(ms.take(k)) =~= rendered_entries(ms.take(k)));
    assert(mod_field_value(mods, category) == rendered_entries(ms.take(k)) + (
    if k == ms.len() {
        Seq::<char>::empty()
    } else {
        overflow_suffix((ms.len() - k) as nat)
    }));
}

/// Copies an optional string.
pub fn clone_opt_string(s: &Option<String>) -> (r: Option<String>)
    ensures
        r == *s,
{
    match s {
        Some(x) => Some(x.clone()),
        None => None,
    }
}

/// Copies a mod reference.
pub fn clone_mod_ref(m: &ModRef) -> (r: ModRef)
    ensures
        r == *m,
{
    ModRef {
        id: m.id,
        category: m.category,
        name: clone_opt_string(&m.name),
        url: clone_opt_string(&m.url),
    }
}

/// Renders one mod entry.
fn render_entry(m: &ModRef) -> (r: String)
    ensures
        r@ == rendered_mod(*m),
{
    match (&m.name, &m.url) {
        (Some(name), Some(url)) => {
            let mut s = String::from_str("[");
            s.append(name.as_str());
            s.append("](");
            s.append(url.as_str());
            s.append(")");
            proof {
                assert(s@ =~= "["@ + m.name->0@ + "]("@ + m.url->0@ + ")"@);
            }
            s
        },
        _ => String::from_str("Hidden mod"),
    }
}

/// Builds the notification field for the mods of `mods` in category
/// `category`, labelled `name`, or nothing when that category holds no mods
/// (the remote endpoint rejects a field with empty text).
pub fn format_mod_field(mods: &Vec<ModRef>, category: i32, name: &str) -> (r: Option<WebhookField>)
    ensures
        r is None <==> filtered_mods(mods@, category).len() == 0,
        (match r {
            Some(f) => f.name@ == name@ && f.value@ == mod_field_value(mods@, category)
                && f.inline == true && f.value@.len() <= MOD_FIELD_CAP,
            None => true,
        }),
{
    let mut fv: Vec<ModRef> = Vec::new();
    let mut i: usize = 0;
    while i < mods.len()
        invariant
            0 <= i <= mods@.len(),
            fv@ == filtered_mods(mods@.take(i as int), category),
        decreases mods@.len() - i,
    {
        proof {
            assert(mods@.take(i as int + 1).drop_last() =~= mods@.take(i as int));
            assert(mods@.take(i as int + 1).last() == mods@[i as int]);
        }
        let keep = match &mods[i].category {
            Some(c) => *c == category,
            None => false,
        };
        if keep {
            fv.push(clone_mod_ref(&mods[i]));
        }
        i = i + 1;
    }
    proof {
        assert(mods@.take(mods@.len() as int) =~= mods@);
    }
    let flen = fv.len();
    let mut value = String::new();
    let mut vlen: usize = 0;
    let mut j: usize = 0;
    proof {
        assert(fv@.skip(0) =~= fv@);
    }
    while j < flen
        invariant
            0 <= j <= flen,
            flen == fv@.len(),
            fv@ == filtered_mods(mods@, category),
            vlen == value@.len(),
            vlen <= MOD_FIELD_ENTRY_LIMIT,
            build_value(fv@.skip(j as int), value@) == build_value(fv@, Seq::empty()),
        decreases flen - j,
    {
        let e = render_entry(&fv[j]);
        let elen = e.unicode_len();
        proof {
            reveal_strlit("\n");
            assert(fv@.skip(j as int).len() > 0);
            assert(fv@.skip(j as int)[0] == fv@[j as int]);
            assert(fv@.skip(j as int).drop_first() =~= fv@.skip(j as int + 1));
        }
        let rem = MOD_FIELD_ENTRY_LIMIT - vlen;
        let ghost vpre = value@;
        if elen >= rem {
            let n_more = flen - j;
            value.append("...and ");
            let count = u64_to_dec_string(n_more as u64);
            value.append(count.as_str());
            value.append(" more");
            proof {
                assert(fv@.skip(j as int).len() == n_more as nat);
                assert(vpre.len() + e@.len() + 1 > MOD_FIELD_ENTRY_LIMIT);
                assert(build_value(fv@.skip(j as int), vpre) == vpre + overflow_suffix(
                    n_more as nat,
                ));
                assert(value@ =~= vpre + overflow_suffix(n_more as nat));
            }
            proof {
                lemma_build_value_capped(fv@, Seq::empty());
            }
            return Some(WebhookField { name: String::from_str(name), value, inline: true });
        }
        value.append(e.as_str());
        value.append("\n");
        proof {
            assert(vpre.len() + e@.len() + 1 <= MOD_FIELD_ENTRY_LIMIT);
            assert(value@ =~= vpre + rendered_mod(fv@[j as int]) + "\n"@);
            assert(build_value(fv@.skip(j as int), vpre) == build_value(
                fv@.skip(j as int + 1),
                value@,
            ));
        }
        vlen = vlen + elen + 1;
        j = j + 1;
    }
    proof {
        assert(fv@.skip(flen as int) =~= Seq::<ModRef>::empty());
    }
    if flen == 0 {
        None
    } else {
        proof {
            lemma_build_value_grows(fv@, Seq::empty());
            lemma_build_value_capped(fv@, Seq::empty());
        }
        Some(WebhookField { name: String::from_str(name), value, inline: true })
    }
}

} // verus!
