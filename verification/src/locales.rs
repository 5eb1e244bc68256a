//! The locale facts handed in by the caller's discovery layer: the
//! country database with per-country timezone lists, and the keyboard
//! layout catalog, together with the selectable lists derived from
//! them for display.

use vstd::prelude::*;
use crate::text::{
    lemma_lex_antisym, lemma_lex_total, lemma_lex_trans, lex_le, sort_strings, str_eq,
    str_lex_le, strings_sorted,
};

verus! {

/// One country: its code, its display name, and the timezone names
/// associated with it.
#[derive(Debug)]
pub struct CountryEntry {
    pub code: String,
    pub name: String,
    pub zones: Vec<String>,
}

/// One keyboard layout: its identifier and its display name.
#[derive(Debug)]
pub struct KeyboardLayout {
    pub id: String,
    pub name: String,
}

/// The locale database: countries with their timezones, and the
/// keyboard layout catalog.
#[derive(Debug)]
pub struct LocaleInfo {
    pub countries: Vec<CountryEntry>,
    pub keyboard_layouts: Vec<KeyboardLayout>,
}

/// The first index whose country code reads `code`, or the number of
/// countries when none does.
pub open spec fn country_index_from(countries: Seq<CountryEntry>, i: int, code: Seq<char>) -> int
    decreases countries.len() - i,
        when 0 <= i <= countries.len()
{
    if i < countries.len() {
        if countries[i].code@ == code {
            i
        } else {
            country_index_from(countries, i + 1, code)
        }
    } else {
        i
    }
}

impl LocaleInfo {
    /// The timezone names of the first country whose code reads
    /// `code`; an unknown code yields the empty list.
    pub open spec fn spec_zones_of(&self, code: Seq<char>) -> Seq<String> {
        let i = country_index_from(self.countries@, 0, code);
        if i < self.countries@.len() {
            self.countries@[i].zones@
        } else {
            Seq::empty()
        }
    }

    /// Looks the country up and hands back a copy of its timezone
    /// names; an unknown code yields the empty list.
    pub fn zones_of(&self, code: &str) -> (r: Vec<String>)
        ensures
            r@.len() == self.spec_zones_of(code@).len(),
            forall|j: int|
                0 <= j < r@.len() ==> (#[trigger] r@[j])@ == self.spec_zones_of(code@)[j]@,
    {
        let n: usize = self.countries.len();
        let mut i: usize = 0;
        loop
            invariant
                0 <= i <= n,
                n == self.countries@.len(),
                country_index_from(self.countries@, 0, code@) == country_index_from(
                    self.countries@,
                    i as int,
                    code@,
                ),
            decreases n - i,
        {
            if i == n {
                return Vec::new();
            }
            if str_eq(self.countries[i].code.as_str(), code) {
                return clone_strings(&self.countries[i].zones);
            }
            i += 1;
        }
    }
}

/// Copies a list of strings, character for character.
pub fn clone_strings(v: &Vec<String>) -> (r: Vec<String>)
    ensures
        r@.len() == v@.len(),
        forall|j: int| 0 <= j < v@.len() ==> (#[trigger] r@[j])@ == v@[j]@,
{
    let mut r: Vec<String> = Vec::new();
    let mut i: usize = 0;
    while i < v.len()
        invariant
            0 <= i <= v@.len(),
            r@.len() == i,
            forall|j: int| 0 <= j < i ==> (#[trigger] r@[j])@ == v@[j]@,
        decreases v@.len() - i,
    {
        r.push(v[i].clone());
        i += 1;
    }
    r
}

/// The selectable timezone list built from a country's zones: the
/// zones in lexicographic order, with `"UTC"` appended last whatever
/// the sort order, so that it stays a selectable fallback even for a
/// country with no matched zones.
pub fn selectable_zones(zones: &Vec<String>) -> (r: Vec<String>)
    ensures
        r@.len() == zones@.len() + 1,
        r@[r@.len() - 1]@ == "UTC"@,
        strings_sorted(r@.take(zones@.len() as int)),
        r@.take(zones@.len() as int).to_multiset() == zones@.to_multiset(),
{
    let mut r = sort_strings(zones);
    let ghost sorted = r@;
    r.push("UTC".to_owned());
    proof {
        assert(r@.take(zones@.len() as int) =~= sorted);
    }
    r
}

/// One selectable entry for display: the label shown to the operator
/// and the value it stands for (a country's name and code, or a
/// keyboard layout's name and identifier).
#[derive(Debug)]
pub struct DisplayPair {
    pub label: String,
    pub value: String,
}

impl DisplayPair {
    /// Copies the pair, character for character.
    pub fn duplicate(&self) -> (r: DisplayPair)
        ensures
            r == *self,
    {
        DisplayPair { label: self.label.clone(), value: self.value.clone() }
    }
}

/// Order on display pairs: by label, ties broken by value.
pub open spec fn pair_le(a: DisplayPair, b: DisplayPair) -> bool {
    if a.label@ == b.label@ {
        lex_le(a.value@, b.value@)
    } else {
        lex_le(a.label@, b.label@)
    }
}

/// Any two pairs are ordered one way or the other.
pub proof fn lemma_pair_total(a: DisplayPair, b: DisplayPair)
    ensures
        pair_le(a, b) || pair_le(b, a),
{
    lemma_lex_total(a.label@, b.label@);
    lemma_lex_total(a.value@, b.value@);
}

/// The pair order is transitive.
pub proof fn lemma_pair_trans(a: DisplayPair, b: DisplayPair, c: DisplayPair)
    requires
        pair_le(a, b),
        pair_le(b, c),
    ensures
        pair_le(a, c),
{
    if a.label@ == b.label@ && b.label@ == c.label@ {
        lemma_lex_trans(a.value@, b.value@, c.value@);
    } else if a.label@ != b.label@ && b.label@ != c.label@ {
        lemma_lex_trans(a.label@, b.label@, c.label@);
        if a.label@ == c.label@ {
            lemma_lex_antisym(b.label@, c.label@);
        }
    }
}

/// Whether `a` comes before `b` in the pair order.
pub fn pair_le_exec(a: &DisplayPair, b: &DisplayPair) -> (r: bool)
    ensures
        r == pair_le(*a, *b),
{
    if str_eq(a.label.as_str(), b.label.as_str()) {
        str_lex_le(a.value.as_str(), b.value.as_str())
    } else {
        str_lex_le(a.label.as_str(), b.label.as_str())
    }
}

/// The pairs of `s` are in order.
pub open spec fn pairs_sorted(s: Seq<DisplayPair>) -> bool {
    forall|i: int, j: int| 0 <= i < j < s.len() ==> pair_le(#[trigger] s[i], #[trigger] s[j])
}

/// The first position of `out` whose pair does not come before `x`.
fn pair_insertion_point(out: &Vec<DisplayPair>, x: &DisplayPair) -> (pos: usize)
    ensures
        pos <= out@.len(),
        forall|p: int| 0 <= p < pos ==> pair_le(#[trigger] out@[p], *x),
        pos < out@.len() ==> !pair_le(out@[pos as int], *x),
{
    let mut pos: usize = 0;
    while pos < out.len()
        invariant
            0 <= pos <= out@.len(),
            forall|p: int| 0 <= p < pos ==> pair_le(#[trigger] out@[p], *x),
        decreases out@.len() - pos,
    {
        if !pair_le_exec(&out[pos], x) {
            return pos;
        }
        pos += 1;
    }
    pos
}

/// Sorts display pairs by label, ties broken by value; the result is
/// a permutation of the input.
pub fn sort_pairs(v: Vec<DisplayPair>) -> (r: Vec<DisplayPair>)
    ensures
        r@.len() == v@.len(),
        pairs_sorted(r@),
        r@.to_multiset() == v@.to_multiset(),
{
    let mut out: Vec<DisplayPair> = Vec::new();
    let mut idx: usize = 0;
    proof {
        assert(out@ =~= v@.take(0));
    }
    while idx < v.len()
        invariant
            0 <= idx <= v@.len(),
            out@.len() == idx,
            pairs_sorted(out@),
            out@.to_multiset() == v@.take(idx as int).to_multiset(),
        decreases v@.len() - idx,
    {
        let x = v[idx].duplicate();
        let pos: usize = pair_insertion_point(&out, &x);
        let ghost before = out@;
        out.insert(pos, x);
        proof {
            assert forall|i: int, j: int| 0 <= i < j < out@.len() implies pair_le(
                #[trigger] out@[i],
                #[trigger] out@[j],
            ) by {
                if i < pos && j == pos {
                    assert(pair_le(before[i], x));
                } else if i == pos && j > pos {
                    lemma_pair_total(before[pos as int], x);
                    if j - 1 > pos {
                        assert(pair_le(before[pos as int], before[j - 1]));
                        lemma_pair_trans(x, before[pos as int], before[j - 1]);
                    }
                } else if i < pos && j > pos {
                    assert(pair_le(before[i], before[j - 1]));
                } else if i > pos {
                    assert(pair_le(before[i - 1], before[j - 1]));
                } else {
                    assert(pair_le(before[i], before[j]));
                }
            }
            crate::text::lemma_insert_to_multiset(before, pos as int, x);
            assert(v@.take(idx + 1) =~= v@.take(idx as int).push(v@[idx as int]));
            v@.take(idx as int).to_multiset_ensures();
        }
        idx += 1;
    }
    proof {
        assert(v@.take(v@.len() as int) =~= v@);
    }
    out
}

/// The display pair that stands for one country.
pub open spec fn country_pair(c: CountryEntry) -> DisplayPair {
    DisplayPair { label: c.name, value: c.code }
}

/// The display pair that stands for one keyboard layout.
pub open spec fn keyboard_pair(k: KeyboardLayout) -> DisplayPair {
    DisplayPair { label: k.name, value: k.id }
}

impl LocaleInfo {
    /// The selectable country list: one pair per country, label the
    /// display name and value the code, sorted by name with ties
    /// broken by code.
    pub fn country_display_list(&self) -> (r: Vec<DisplayPair>)
        ensures
            r@.len() == self.countries@.len(),
            pairs_sorted(r@),
            r@.to_multiset() == self.countries@.map_values(|c: CountryEntry| country_pair(c)).to_multiset(),
    {
        let mut pairs: Vec<DisplayPair> = Vec::new();
        let mut i: usize = 0;
        let ghost mapped = self.countries@.map_values(|c: CountryEntry| country_pair(c));
        proof {
            assert(pairs@ =~= mapped.take(0));
        }
        while i < self.countries.len()
            invariant
                0 <= i <= self.countries@.len(),
                mapped == self.countries@.map_values(|c: CountryEntry| country_pair(c)),
                pairs@ =~= mapped.take(i as int),
            decreases self.countries@.len() - i,
        {
            pairs.push(
                DisplayPair {
                    label: self.countries[i].name.clone(),
                    value: self.countries[i].code.clone(),
                },
            );
            proof {
                assert(pairs@ =~= mapped.take(i + 1));
            }
            i += 1;
        }
        proof {
            assert(mapped.take(mapped.len() as int) =~= mapped);
        }
        sort_pairs(pairs)
    }

    /// The selectable keyboard layout list: one pair per layout,
    /// label the display name and value the identifier, sorted by
    /// name with ties broken by identifier.
    pub fn keyboard_display_list(&self) -> (r: Vec<DisplayPair>)
        ensures
            r@.len() == self.keyboard_layouts@.len(),
            pairs_sorted(r@),
            r@.to_multiset() == self.keyboard_layouts@.map_values(
                |k: KeyboardLayout| keyboard_pair(k),
            ).to_multiset(),
    {
        let mut pairs: Vec<DisplayPair> = Vec::new();
        let mut i: usize = 0;
        let ghost mapped = self.keyboard_layouts@.map_values(|k: KeyboardLayout| keyboard_pair(k));
        proof {
            assert(pairs@ =~= mapped.take(0));
        }
        while i < self.keyboard_layouts.len()
            invariant
                0 <= i <= self.keyboard_layouts@.len(),
                mapped == self.keyboard_layouts@.map_values(|k: KeyboardLayout| keyboard_pair(k)),
                pairs@ =~= mapped.take(i as int),
            decreases self.keyboard_layouts@.len() - i,
        {
            pairs.push(
                DisplayPair {
                    label: self.keyboard_layouts[i].name.clone(),
                    value: self.keyboard_layouts[i].id.clone(),
                },
            );
            proof {
                assert(pairs@ =~= mapped.take(i + 1));
            }
            i += 1;
        }
        proof {
            assert(mapped.take(mapped.len() as int) =~= mapped);
        }
        sort_pairs(pairs)
    }
}

/// The first index whose pair's value reads `v`, or the length when
/// none does.
pub open spec fn pair_pos_from(pairs: Seq<DisplayPair>, i: int, v: Seq<char>) -> int
    decreases pairs.len() - i,
        when 0 <= i <= pairs.len()
{
    if i < pairs.len() {
        if pairs[i].value@ == v {
            i
        } else {
            pair_pos_from(pairs, i + 1, v)
        }
    } else {
        i
    }
}

/// The position to pre-select in a display list: the first entry
/// whose value reads `value`, or the first entry when none matches.
pub fn position_of_value(pairs: &Vec<DisplayPair>, value: &str) -> (i: usize)
    ensures
        ({
            let p = pair_pos_from(pairs@, 0, value@);
            i == if p < pairs@.len() {
                p
            } else {
                0int
            }
        }),
{
    let n: usize = pairs.len();
    let mut k: usize = 0;
    loop
        invariant
            0 <= k <= n,
            n == pairs@.len(),
            pair_pos_from(pairs@, 0, value@) == pair_pos_from(pairs@, k as int, value@),
        decreases n - k,
    {
        if k == n {
            return 0;
        }
        if str_eq(pairs[k].value.as_str(), value) {
            return k;
        }
        k += 1;
    }
}

} // verus!
