//! The user's settings: their shape, defaults, lookups and normalisation.

use vstd::prelude::*;
use vstd::string::StringExecFns;
use crate::fix::{InputSource, OutputMode};
use crate::language::{auto_language, builtin_languages, builtin_languages_view, language_view, languages_view, Language, LanguageView, AUTO_TAG};
use crate::persona::{builtin_persona, builtin_persona_ids, builtin_persona_index, builtin_persona_table, builtin_personas, builtin_personas_view, persona_view, personas_view, Persona, PersonaView, DEFAULT_PERSONA_ID};
use crate::provider::{ModelPricing, ProviderId, ProviderProfile};
use crate::speed::Speed;
use crate::text::{all_ws, decimal, eq_str, is_blank, is_ws, push_decimal, strings_view};

verus! {

broadcast use vstd::string::group_string_axioms;

/// The settings format this build writes.
pub const CURRENT_SCHEMA_VERSION: u32 = 1;

/// The hotkey used until the user picks one.
pub const DEFAULT_HOTKEY: &'static str = "Ctrl+Alt+G";

/// The id of the sidebar group that exists from the start.
pub const DEFAULT_CATEGORY_ID: &'static str = "general";

/// The lowest window opacity, in percent.
pub const OPACITY_MIN: u8 = 40;

/// Every panel of the settings sidebar, in their default order.
pub const SIDEBAR_SECTIONS: [&'static str; 10] = [
    "hotkeys",
    "personas",
    "languages",
    "providers",
    "behavior",
    "appearance",
    "usage",
    "system",
    "logs",
    "about",
];

/// The sidebar panels as character sequences.
pub open spec fn sections() -> Seq<Seq<char>> {
    seq![
        "hotkeys"@,
        "personas"@,
        "languages"@,
        "providers"@,
        "behavior"@,
        "appearance"@,
        "usage"@,
        "system"@,
        "logs"@,
        "about"@,
    ]
}

/// The sidebar panels, in their default order.
pub fn sidebar_sections() -> (r: Vec<String>)
    ensures
        strings_view(r@) == sections(),
{
    let mut r: Vec<String> = Vec::new();
    let mut i: usize = 0;
    while i < 10
        invariant
            i <= 10,
            strings_view(r@) == sections().take(i as int),
        decreases 10 - i,
    {
        let s = SIDEBAR_SECTIONS[i];
        assert(s@ == sections()[i as int]);
        let ghost prev = r@;
        r.push(String::from_str(s));
        assert(strings_view(r@) =~= strings_view(prev).push(s@));
        assert(sections().take(i + 1) =~= sections().take(i as int).push(sections()[i as int]));
        i = i + 1;
    }
    assert(sections().take(10) =~= sections());
    r
}

/// Colour scheme.
#[derive(Debug, Clone, Copy, PartialEq, Eq, Structural)]
pub enum Theme {
    System,
    Dark,
    Light,
}

impl Default for Theme {
    fn default() -> (r: Self)
        ensures
            r == Theme::System,
    {
        Theme::System
    }
}

/// How corrections are triggered and delivered.
#[derive(Debug, Clone, Copy, PartialEq, Eq, Structural)]
pub struct BehaviorSettings {
    pub input_source: InputSource,
    pub output_mode: OutputMode,
    pub minimize_to_tray: bool,
    pub show_notifications: bool,
    pub play_sound: bool,
    pub auto_copy_fixed: bool,
    pub keep_history: bool,
}

impl Default for BehaviorSettings {
    fn default() -> (r: Self)
        ensures
            r == (BehaviorSettings {
                input_source: InputSource::Selection,
                output_mode: OutputMode::Review,
                minimize_to_tray: true,
                show_notifications: true,
                play_sound: false,
                auto_copy_fixed: false,
                keep_history: true,
            }),
    {
        BehaviorSettings {
            input_source: InputSource::default(),
            output_mode: OutputMode::default(),
            minimize_to_tray: true,
            show_notifications: true,
            play_sound: false,
            auto_copy_fixed: false,
            keep_history: true,
        }
    }
}

/// Start-up and update behaviour.
#[derive(Debug, Clone, Copy, PartialEq, Eq, Structural)]
pub struct SystemSettings {
    pub start_with_os: bool,
    pub start_minimized: bool,
    pub check_for_updates: bool,
}

impl Default for SystemSettings {
    fn default() -> (r: Self)
        ensures
            r == (SystemSettings { start_with_os: false, start_minimized: false, check_for_updates: true }),
    {
        SystemSettings { start_with_os: false, start_minimized: false, check_for_updates: true }
    }
}

/// A group of panels in the sidebar.
#[derive(Debug, Clone)]
pub struct SidebarCategory {
    pub id: String,
    pub name: String,
    pub collapsed: bool,
    pub items: Vec<String>,
}

/// How the sidebar's panels are grouped.
#[derive(Debug, Clone)]
pub struct SidebarLayout {
    pub categories: Vec<SidebarCategory>,
}

/// A category as id, name, collapsed flag and items.
pub type CategoryView = (Seq<char>, Seq<char>, bool, Seq<Seq<char>>);

pub open spec fn category_view(c: SidebarCategory) -> CategoryView {
    (c.id@, c.name@, c.collapsed, strings_view(c.items@))
}

pub open spec fn categories_view(v: Seq<SidebarCategory>) -> Seq<CategoryView> {
    v.map_values(|c: SidebarCategory| category_view(c))
}

impl Default for SidebarLayout {
    fn default() -> (r: Self)
        ensures
            categories_view(r.categories@) == seq![(DEFAULT_CATEGORY_ID@, "General"@, false, sections())],
    {
        let c = SidebarCategory {
            id: String::from_str(DEFAULT_CATEGORY_ID),
            name: String::from_str("General"),
            collapsed: false,
            items: sidebar_sections(),
        };
        let r = SidebarLayout { categories: vec![c] };
        assert(categories_view(r.categories@) =~= seq![category_view(c)]);
        r
    }
}

/// The panels of `items` that are known, not in `placed`, and not listed
/// earlier in `items`, in order: a repeated panel is kept at its first place.
pub open spec fn kept_items(items: Seq<Seq<char>>, placed: Seq<Seq<char>>) -> Seq<Seq<char>>
    decreases items.len(),
{
    if items.len() == 0 {
        Seq::empty()
    } else {
        let k = kept_items(items.drop_last(), placed);
        let x = items.last();
        if sections().contains(x) && !placed.contains(x) && !k.contains(x) {
            k.push(x)
        } else {
            k
        }
    }
}

/// The entries of `s` not in `placed`, in order.
pub open spec fn unplaced(s: Seq<Seq<char>>, placed: Seq<Seq<char>>) -> Seq<Seq<char>> {
    s.filter(|x: Seq<char>| !placed.contains(x))
}

/// The item lists of the categories.
pub open spec fn groups_of(cats: Seq<CategoryView>) -> Seq<Seq<Seq<char>>> {
    cats.map_values(|c: CategoryView| c.3)
}

/// The panels the first `n` groups keep, group by group: each group keeps the
/// known panels that neither an earlier group nor an earlier entry of its own
/// kept.
pub open spec fn placed_before(groups: Seq<Seq<Seq<char>>>, n: int) -> Seq<Seq<char>>
    decreases n,
{
    if n <= 0 {
        Seq::empty()
    } else {
        let p = placed_before(groups, n - 1);
        p + kept_items(groups[n - 1], p)
    }
}

/// The name shown for a category: blank names become "Untitled".
pub open spec fn display_name(name: Seq<char>) -> Seq<char> {
    if all_ws(name) {
        "Untitled"@
    } else {
        name
    }
}

/// The category created when a layout has none.
pub open spec fn fresh_category() -> CategoryView {
    (DEFAULT_CATEGORY_ID@, "General"@, false, Seq::empty())
}

/// Category `i` with its name fixed and its items reduced to what it keeps.
pub open spec fn tidied(cats: Seq<CategoryView>, i: int) -> CategoryView {
    (cats[i].0, display_name(cats[i].1), cats[i].2, kept_items(cats[i].3, placed_before(groups_of(cats), i)))
}

/// A layout after normalisation: unknown panels, panels already placed by an
/// earlier group and repeats within a group are dropped, a layout without groups gets one, panels placed
/// nowhere are appended to the first group, and blank names become "Untitled".
pub open spec fn normalized_categories(cats: Seq<CategoryView>) -> Seq<CategoryView> {
    let base = if cats.len() == 0 {
        seq![fresh_category()]
    } else {
        cats
    };
    let t = Seq::new(base.len(), |i: int| tidied(base, i));
    let missing = unplaced(sections(), placed_before(groups_of(base), base.len() as int));
    t.update(0, (t[0].0, t[0].1, t[0].2, t[0].3 + missing))
}

/// Whether `v` holds a string equal to `s`.
fn contains_string(v: &Vec<String>, s: &str) -> (b: bool)
    ensures
        b == strings_view(v@).contains(s@),
{
    let mut i: usize = 0;
    while i < v.len()
        invariant
            i <= v@.len(),
            forall|j: int| 0 <= j < i ==> (#[trigger] strings_view(v@)[j]) != s@,
        decreases v@.len() - i,
    {
        if eq_str(v[i].as_str(), s) {
            assert(strings_view(v@)[i as int] == s@);
            return true;
        }
        i = i + 1;
    }
    false
}

impl SidebarLayout {
    /// Brings a saved layout in line with the panels this build has.
    pub fn normalize(&mut self)
        ensures
            categories_view(final(self).categories@) == normalized_categories(categories_view(old(self).categories@)),
    {
        let ghost cats0 = categories_view(self.categories@);
        let ghost base = if cats0.len() == 0 {
            seq![fresh_category()]
        } else {
            cats0
        };
        let known = sidebar_sections();
        let mut seen: Vec<String> = Vec::new();
        let mut out: Vec<SidebarCategory> = Vec::new();
        let n = self.categories.len();
        let mut i: usize = 0;
        while i < n
            invariant
                n == self.categories@.len(),
                cats0 == categories_view(self.categories@),
                strings_view(known@) == sections(),
                i <= n,
                strings_view(seen@) == placed_before(groups_of(cats0), i as int),
                categories_view(out@) == Seq::new(i as nat, |k: int| tidied(cats0, k)),
            decreases n - i,
        {
            let c = &self.categories[i];
            let ghost items = strings_view(c.items@);
            let ghost placed = strings_view(seen@);
            assert(groups_of(cats0)[i as int] == items);
            let mut kept: Vec<String> = Vec::new();
            let m = c.items.len();
            let mut j: usize = 0;
            while j < m
                invariant
                    m == c.items@.len(),
                    items == strings_view(c.items@),
                    placed == strings_view(seen@),
                    strings_view(known@) == sections(),
                    j <= m,
                    strings_view(kept@) == kept_items(items.take(j as int), placed),
                decreases m - j,
            {
                let item = c.items[j].as_str();
                let ghost prev = kept@;
                proof {
                    assert(items.take(j + 1).drop_last() =~= items.take(j as int));
                    assert(items.take(j + 1).last() == item@);
                }
                if contains_string(&known, item) && !contains_string(&seen, item) && !contains_string(&kept, item) {
                    kept.push(c.items[j].clone());
                    assert(strings_view(kept@) =~= strings_view(prev).push(item@));
                }
                j = j + 1;
            }
            assert(items.take(m as int) =~= items);
            let ghost seen_before = seen@;
            let mut k: usize = 0;
            while k < kept.len()
                invariant
                    k <= kept@.len(),
                    strings_view(seen@) == strings_view(seen_before) + strings_view(kept@).take(k as int),
                decreases kept@.len() - k,
            {
                let ghost prev = seen@;
                seen.push(kept[k].clone());
                assert(strings_view(seen@) =~= strings_view(prev).push(strings_view(kept@)[k as int]));
                assert(strings_view(kept@).take(k + 1) =~= strings_view(kept@).take(k as int).push(
                    strings_view(kept@)[k as int],
                ));
                k = k + 1;
            }
            assert(strings_view(kept@).take(kept@.len() as int) =~= strings_view(kept@));
            let name = if is_blank(c.name.as_str()) {
                String::from_str("Untitled")
            } else {
                c.name.clone()
            };
            let ghost prev_out = out@;
            out.push(SidebarCategory { id: c.id.clone(), name, collapsed: c.collapsed, items: kept });
            assert(categories_view(out@) =~= Seq::new((i + 1) as nat, |k: int| tidied(cats0, k))) by {
                assert(categories_view(out@) =~= categories_view(prev_out).push(tidied(cats0, i as int)));
            }
            i = i + 1;
        }
        if out.len() == 0 {
            out.push(SidebarCategory {
                id: String::from_str(DEFAULT_CATEGORY_ID),
                name: String::from_str("General"),
                collapsed: false,
                items: Vec::new(),
            });
            proof {
                reveal(Seq::filter);
                reveal_strlit("General");
                assert(!is_ws("General"@[0]));
                assert(display_name("General"@) == "General"@);
                let g = groups_of(base);
                assert(g[0] == Seq::<Seq<char>>::empty());
                assert(placed_before(g, 0) == Seq::<Seq<char>>::empty());
                assert(placed_before(g, 1) =~= Seq::<Seq<char>>::empty());
                assert(strings_view(seen@) =~= placed_before(g, 1));
                assert(cats0.len() == 0);
                assert(base[0] == fresh_category());
                assert(strings_view(out@[0].items@) =~= Seq::<Seq<char>>::empty());
                assert(category_view(out@[0]) == fresh_category());
                assert(tidied(base, 0) == fresh_category());
                assert(categories_view(out@) =~= Seq::new(1, |k: int| tidied(base, k)));
            }
        } else {
            assert(base == cats0);
        }
        assert(strings_view(seen@) == placed_before(groups_of(base), base.len() as int));
        assert(categories_view(out@) == Seq::new(base.len(), |k: int| tidied(base, k)));
        let ghost placed_all = strings_view(seen@);
        let mut missing: Vec<String> = Vec::new();
        let mut s: usize = 0;
        while s < known.len()
            invariant
                strings_view(known@) == sections(),
                placed_all == strings_view(seen@),
                s <= known@.len(),
                strings_view(missing@) == unplaced(sections().take(s as int), placed_all),
            decreases known@.len() - s,
        {
            let ghost prev = missing@;
            proof {
                reveal(Seq::filter);
                assert(sections().take(s + 1).drop_last() =~= sections().take(s as int));
                assert(sections().take(s + 1).last() == known@[s as int]@);
            }
            if !contains_string(&seen, known[s].as_str()) {
                missing.push(known[s].clone());
                assert(strings_view(missing@) =~= strings_view(prev).push(known@[s as int]@));
            }
            s = s + 1;
        }
        assert(sections().take(known@.len() as int) =~= sections());
        let ghost t = categories_view(out@);
        let mut first = out.remove(0);
        let ghost first_items = first.items@;
        first.items.append(&mut missing);
        assert(strings_view(first.items@) =~= t[0].3 + unplaced(sections(), placed_all));
        let ghost rest = out@;
        out.insert(0, first);
        assert(categories_view(out@) =~= t.update(0, (t[0].0, t[0].1, t[0].2, t[0].3 + unplaced(sections(), placed_all))));
        self.categories = out;
    }
}

/// What a group keeps is a known panel of the group that no earlier group kept.
proof fn lemma_kept_member(items: Seq<Seq<char>>, placed: Seq<Seq<char>>, x: Seq<char>)
    requires
        kept_items(items, placed).contains(x),
    ensures
        sections().contains(x),
        !placed.contains(x),
        items.contains(x),
    decreases items.len(),
{
    let k = kept_items(items.drop_last(), placed);
    if k.contains(x) {
        lemma_kept_member(items.drop_last(), placed, x);
        let idx = choose|idx: int| 0 <= idx < items.drop_last().len() && items.drop_last()[idx] == x;
        assert(items[idx] == x);
    } else {
        let y = items.last();
        let r = kept_items(items, placed);
        let idx = choose|idx: int| 0 <= idx < r.len() && r[idx] == x;
        if r == k {
            assert(k.contains(x));
        } else {
            assert(r == k.push(y));
            if idx < k.len() {
                assert(k[idx] == x);
            }
            assert(x == y);
            assert(items[items.len() - 1] == x);
        }
    }
}

/// A group keeps each panel at most once.
proof fn lemma_kept_no_duplicates(items: Seq<Seq<char>>, placed: Seq<Seq<char>>)
    ensures
        kept_items(items, placed).no_duplicates(),
    decreases items.len(),
{
    if items.len() > 0 {
        lemma_kept_no_duplicates(items.drop_last(), placed);
        let k = kept_items(items.drop_last(), placed);
        let x = items.last();
        if sections().contains(x) && !placed.contains(x) && !k.contains(x) {
            let r = k.push(x);
            assert forall|i: int, j: int| 0 <= i < r.len() && 0 <= j < r.len() && i != j implies r[i] != r[j] by {
                if i < k.len() && j < k.len() {
                } else if i < k.len() {
                    assert(r[i] == k[i]);
                } else {
                    assert(r[j] == k[j]);
                }
            }
        }
    }
}

/// A panel placed by the first `i` groups is still placed after `j >= i` groups.
proof fn lemma_placed_grows(g: Seq<Seq<Seq<char>>>, i: int, j: int, x: Seq<char>)
    requires
        0 <= i <= j,
        placed_before(g, i).contains(x),
    ensures
        placed_before(g, j).contains(x),
    decreases j - i,
{
    if i < j {
        lemma_placed_grows(g, i, j - 1, x);
        let p = placed_before(g, j - 1);
        vstd::seq_lib::lemma_seq_concat_contains_all_elements(p, kept_items(g[j - 1], p), x);
    }
}

/// What group `i` keeps is placed once `i + 1` groups are done.
proof fn lemma_kept_is_placed(g: Seq<Seq<Seq<char>>>, i: int, x: Seq<char>)
    requires
        0 <= i,
        kept_items(g[i], placed_before(g, i)).contains(x),
    ensures
        placed_before(g, i + 1).contains(x),
{
    let p = placed_before(g, i);
    vstd::seq_lib::lemma_seq_concat_contains_all_elements(p, kept_items(g[i], p), x);
}

/// A placed panel was kept by one of the groups.
proof fn lemma_placed_source(g: Seq<Seq<Seq<char>>>, n: int, x: Seq<char>) -> (i: int)
    requires
        0 <= n,
        placed_before(g, n).contains(x),
    ensures
        0 <= i < n,
        kept_items(g[i], placed_before(g, i)).contains(x),
    decreases n,
{
    let p = placed_before(g, n - 1);
    vstd::seq_lib::lemma_seq_concat_contains_all_elements(p, kept_items(g[n - 1], p), x);
    if p.contains(x) {
        lemma_placed_source(g, n - 1, x)
    } else {
        n - 1
    }
}

/// Which panels category `i` of a normalised layout holds.
proof fn lemma_normalized_items(cats: Seq<CategoryView>, i: int, x: Seq<char>)
    requires
        0 <= i < normalized_categories(cats).len(),
    ensures
        ({
            let base = if cats.len() == 0 {
                seq![fresh_category()]
            } else {
                cats
            };
            let g = groups_of(base);
            &&& normalized_categories(cats).len() == base.len()
            &&& normalized_categories(cats)[i].3.contains(x) <==> (kept_items(g[i], placed_before(g, i)).contains(x) || (i
                == 0 && unplaced(sections(), placed_before(g, base.len() as int)).contains(x)))
        }),
{
    let base = if cats.len() == 0 {
        seq![fresh_category()]
    } else {
        cats
    };
    let g = groups_of(base);
    let t = Seq::new(base.len(), |k: int| tidied(base, k));
    assert(g[i] == base[i].3);
    if i == 0 {
        vstd::seq_lib::lemma_seq_concat_contains_all_elements(
            t[0].3,
            unplaced(sections(), placed_before(g, base.len() as int)),
            x,
        );
    }
}

/// After normalisation every panel in the sidebar is one this build has.
pub proof fn lemma_normalized_sidebar_holds_only_known_panels(cats: Seq<CategoryView>, i: int, x: Seq<char>)
    requires
        0 <= i < normalized_categories(cats).len(),
        normalized_categories(cats)[i].3.contains(x),
    ensures
        sections().contains(x),
{
    broadcast use vstd::seq_lib::group_filter_ensures;

    lemma_normalized_items(cats, i, x);
    let base = if cats.len() == 0 {
        seq![fresh_category()]
    } else {
        cats
    };
    let g = groups_of(base);
    if kept_items(g[i], placed_before(g, i)).contains(x) {
        lemma_kept_member(g[i], placed_before(g, i), x);
    } else {
        sections().lemma_filter_contains_rev(|y: Seq<char>| !placed_before(g, base.len() as int).contains(y), x);
    }
}

/// After normalisation every panel of this build is reachable from some category.
pub proof fn lemma_normalized_sidebar_reaches_every_panel(cats: Seq<CategoryView>, x: Seq<char>) -> (i: int)
    requires
        sections().contains(x),
    ensures
        0 <= i < normalized_categories(cats).len(),
        normalized_categories(cats)[i].3.contains(x),
{
    broadcast use vstd::seq_lib::group_filter_ensures;

    let base = if cats.len() == 0 {
        seq![fresh_category()]
    } else {
        cats
    };
    let g = groups_of(base);
    let all = placed_before(g, base.len() as int);
    lemma_normalized_items(cats, 0, x);
    if all.contains(x) {
        let i = lemma_placed_source(g, base.len() as int, x);
        lemma_normalized_items(cats, i, x);
        i
    } else {
        let idx = choose|idx: int| 0 <= idx < sections().len() && sections()[idx] == x;
        sections().lemma_filter_contains(|y: Seq<char>| !all.contains(y), idx);
        0
    }
}

/// After normalisation no panel is listed in two different categories.
pub proof fn lemma_normalized_sidebar_places_panels_once(cats: Seq<CategoryView>, i: int, j: int, x: Seq<char>)
    requires
        0 <= i < normalized_categories(cats).len(),
        0 <= j < normalized_categories(cats).len(),
        i != j,
        normalized_categories(cats)[i].3.contains(x),
    ensures
        !normalized_categories(cats)[j].3.contains(x),
{
    broadcast use vstd::seq_lib::group_filter_ensures;

    let base = if cats.len() == 0 {
        seq![fresh_category()]
    } else {
        cats
    };
    let g = groups_of(base);
    let n = base.len() as int;
    let all = placed_before(g, n);
    lemma_normalized_items(cats, i, x);
    lemma_normalized_items(cats, j, x);
    if normalized_categories(cats)[j].3.contains(x) {
        let (a, b) = if i < j {
            (i, j)
        } else {
            (j, i)
        };
        // `b > 0`, so category `b` holds only what it kept.
        assert(kept_items(g[b], placed_before(g, b)).contains(x));
        lemma_kept_member(g[b], placed_before(g, b), x);
        if kept_items(g[a], placed_before(g, a)).contains(x) {
            lemma_kept_is_placed(g, a, x);
            lemma_placed_grows(g, a + 1, b, x);
        } else {
            // `a == 0` and the panel was one appended as unplaced.
            lemma_kept_is_placed(g, b, x);
            lemma_placed_grows(g, b + 1, n, x);
            sections().lemma_filter_pred(|y: Seq<char>| !all.contains(y), 0);
            let m = unplaced(sections(), all);
            let idx = choose|idx: int| 0 <= idx < m.len() && m[idx] == x;
            assert(m[idx] == x);
        }
    }
}

/// The sidebar panels are all different.
proof fn lemma_sections_are_distinct()
    ensures
        sections().no_duplicates(),
{
    reveal_strlit("hotkeys");
    reveal_strlit("personas");
    reveal_strlit("languages");
    reveal_strlit("providers");
    reveal_strlit("behavior");
    reveal_strlit("appearance");
    reveal_strlit("usage");
    reveal_strlit("system");
    reveal_strlit("logs");
    reveal_strlit("about");
    let t = sections();
    assert forall|i: int, j: int| 0 <= i < t.len() && 0 <= j < t.len() && i != j implies t[i] != t[j] by {
        assert(t[i][0] != t[j][0] || t[i][1] != t[j][1]);
    }
}

/// Leaving entries out of a list without repeats leaves a list without repeats.
proof fn lemma_unplaced_no_duplicates(s: Seq<Seq<char>>, placed: Seq<Seq<char>>)
    requires
        s.no_duplicates(),
    ensures
        unplaced(s, placed).no_duplicates(),
    decreases s.len(),
{
    reveal(Seq::filter);
    if s.len() > 0 {
        let d = s.drop_last();
        assert forall|i: int, j: int| 0 <= i < d.len() && 0 <= j < d.len() && i != j implies d[i] != d[j] by {
            assert(d[i] == s[i] && d[j] == s[j]);
        }
        lemma_unplaced_no_duplicates(d, placed);
        let u = unplaced(d, placed);
        let x = s.last();
        if !placed.contains(x) {
            assert(unplaced(s, placed) == u.push(x));
            assert forall|k: int| 0 <= k < u.len() implies u[k] != x by {
                d.lemma_filter_contains_rev(|y: Seq<char>| !placed.contains(y), u[k]);
                assert(u.contains(u[k]));
                let idx = choose|idx: int| 0 <= idx < d.len() && d[idx] == u[k];
                assert(s[idx] == d[idx]);
            }
            let r = u.push(x);
            assert forall|i: int, j: int| 0 <= i < r.len() && 0 <= j < r.len() && i != j implies r[i] != r[j] by {
                if i < u.len() && j < u.len() {
                } else if i < u.len() {
                    assert(r[i] == u[i]);
                } else {
                    assert(r[j] == u[j]);
                }
            }
        }
    }
}

/// After normalisation no category lists a panel twice.
pub proof fn lemma_normalized_sidebar_lists_each_panel_once(cats: Seq<CategoryView>, i: int)
    requires
        0 <= i < normalized_categories(cats).len(),
    ensures
        normalized_categories(cats)[i].3.no_duplicates(),
{
    broadcast use vstd::seq_lib::group_filter_ensures;

    let base = if cats.len() == 0 {
        seq![fresh_category()]
    } else {
        cats
    };
    let g = groups_of(base);
    let n = base.len() as int;
    let all = placed_before(g, n);
    let t = Seq::new(base.len(), |k: int| tidied(base, k));
    assert(g[i] == base[i].3);
    lemma_kept_no_duplicates(g[i], placed_before(g, i));
    if i == 0 {
        let kept = t[0].3;
        let missing = unplaced(sections(), all);
        lemma_sections_are_distinct();
        lemma_unplaced_no_duplicates(sections(), all);
        assert forall|a: int, b: int| 0 <= a < kept.len() && 0 <= b < missing.len() implies kept[a] != missing[b] by {
            let x = kept[a];
            assert(kept.contains(x));
            lemma_kept_is_placed(g, 0, x);
            lemma_placed_grows(g, 1, n, x);
            sections().lemma_filter_contains_rev(|y: Seq<char>| !all.contains(y), missing[b]);
            assert(missing.contains(missing[b]));
        }
        vstd::seq_lib::lemma_no_dup_in_concat(kept, missing);
    }
}

/// A normalised layout has at least one category, and none with a blank name.
pub proof fn lemma_normalized_sidebar_has_named_categories(cats: Seq<CategoryView>)
    ensures
        normalized_categories(cats).len() >= 1,
        forall|i: int| 0 <= i < normalized_categories(cats).len() ==> !all_ws(#[trigger] normalized_categories(cats)[i].1),
{
    reveal_strlit("Untitled");
    reveal_strlit("General");
    assert(!is_ws("Untitled"@[0]));
    assert(!is_ws("General"@[0]));
}

/// Theme and opacity.
#[derive(Debug, Clone, Copy, PartialEq, Eq, Structural)]
pub struct AppearanceSettings {
    pub theme: Theme,
    pub opacity: u8,
}

impl Default for AppearanceSettings {
    fn default() -> (r: Self)
        ensures
            r == (AppearanceSettings { theme: Theme::System, opacity: 100 }),
    {
        AppearanceSettings { theme: Theme::default(), opacity: 100 }
    }
}

/// Prices per model, keyed by `pricing_key`.
#[derive(Debug, Clone)]
pub struct PricingTable {
    entries: Vec<(String, ModelPricing)>,
}

/// The price stored under `key` in a list of entries: the first entry with that key.
pub open spec fn lookup_price(entries: Seq<(Seq<char>, ModelPricing)>, key: Seq<char>) -> Option<ModelPricing>
    decreases entries.len(),
{
    if entries.len() == 0 {
        None
    } else if entries[0].0 == key {
        Some(entries[0].1)
    } else {
        lookup_price(entries.skip(1), key)
    }
}

pub open spec fn price_entries_view(v: Seq<(String, ModelPricing)>) -> Seq<(Seq<char>, ModelPricing)> {
    v.map_values(|e: (String, ModelPricing)| (e.0@, e.1))
}

proof fn lemma_lookup_prefix(e: Seq<(Seq<char>, ModelPricing)>, i: int, key: Seq<char>)
    requires
        0 <= i <= e.len(),
        forall|j: int| 0 <= j < i ==> (#[trigger] e[j]).0 != key,
    ensures
        lookup_price(e, key) == lookup_price(e.skip(i), key),
    decreases i,
{
    if i > 0 {
        assert(e[0].0 != key);
        assert forall|j: int| 0 <= j < i - 1 implies (#[trigger] e.skip(1)[j]).0 != key by {
            assert(e.skip(1)[j] == e[j + 1]);
        }
        lemma_lookup_prefix(e.skip(1), i - 1, key);
        assert(e.skip(1).skip(i - 1) =~= e.skip(i));
    } else {
        assert(e.skip(0) =~= e);
    }
}

impl PricingTable {
    /// The table as key-price pairs.
    pub closed spec fn spec_entries(&self) -> Seq<(Seq<char>, ModelPricing)> {
        price_entries_view(self.entries@)
    }

    /// The price stored under `key`.
    pub open spec fn spec_get(&self, key: Seq<char>) -> Option<ModelPricing> {
        lookup_price(self.spec_entries(), key)
    }

    /// An empty table.
    pub fn new() -> (r: Self)
        ensures
            r.spec_entries() == Seq::<(Seq<char>, ModelPricing)>::empty(),
            forall|k: Seq<char>| (#[trigger] r.spec_get(k)) is None,
    {
        let r = PricingTable { entries: Vec::new() };
        assert(r.spec_entries() =~= Seq::<(Seq<char>, ModelPricing)>::empty());
        r
    }

    /// Where `key` is stored, if it is.
    fn position(&self, key: &str) -> (r: Option<usize>)
        ensures
            match r {
                Some(i) => i < self.spec_entries().len() && self.spec_entries()[i as int].0 == key@
                    && forall|j: int| 0 <= j < i ==> (#[trigger] self.spec_entries()[j]).0 != key@,
                None => forall|j: int| 0 <= j < self.spec_entries().len() ==> (#[trigger] self.spec_entries()[j]).0 != key@,
            },
    {
        let mut i: usize = 0;
        while i < self.entries.len()
            invariant
                i <= self.entries@.len(),
                self.spec_entries().len() == self.entries@.len(),
                forall|j: int| 0 <= j < i ==> (#[trigger] self.spec_entries()[j]).0 != key@,
            decreases self.entries@.len() - i,
        {
            assert(self.spec_entries()[i as int].0 == self.entries@[i as int].0@);
            if eq_str(self.entries[i].0.as_str(), key) {
                return Some(i);
            }
            i = i + 1;
        }
        None
    }

    /// The price stored under `key`.
    pub fn get(&self, key: &str) -> (r: Option<ModelPricing>)
        ensures
            r == self.spec_get(key@),
    {
        match self.position(key) {
            Some(i) => {
                proof {
                    lemma_lookup_prefix(self.spec_entries(), i as int, key@);
                }
                Some(self.entries[i].1)
            },
            None => {
                proof {
                    lemma_lookup_prefix(self.spec_entries(), self.spec_entries().len() as int, key@);
                }
                None
            },
        }
    }

    /// Stores `value` under `key`, replacing what was there.
    pub fn insert(&mut self, key: String, value: ModelPricing)
        ensures
            forall|k: Seq<char>| #[trigger] final(self).spec_get(k) == if k == key@ {
                Some(value)
            } else {
                old(self).spec_get(k)
            },
            final(self).spec_entries() == match first_index(
                old(self).spec_entries().map_values(|e: (Seq<char>, ModelPricing)| e.0),
                key@,
            ) {
                Some(i) => old(self).spec_entries().update(i, (key@, value)),
                None => old(self).spec_entries().push((key@, value)),
            },
    {
        let ghost e0 = self.spec_entries();
        let ghost keys = e0.map_values(|e: (Seq<char>, ModelPricing)| e.0);
        match self.position(key.as_str()) {
            Some(i) => {
                let ghost kv = key@;
                self.entries.set(i, (key, value));
                proof {
                    assert forall|j: int| 0 <= j < i implies keys[j] != kv by {
                        assert(keys[j] == e0[j].0);
                    }
                    lemma_first_index_at(keys, kv, i as int);
                    let e1 = self.spec_entries();
                    assert(e1 =~= e0.update(i as int, (kv, value)));
                    assert forall|k: Seq<char>| #[trigger] lookup_price(e1, k) == if k == kv {
                        Some(value)
                    } else {
                        lookup_price(e0, k)
                    } by {
                        if k == kv {
                            assert forall|j: int| 0 <= j < i implies (#[trigger] e1[j]).0 != k by {
                                assert(e1[j] == e0[j]);
                            }
                            lemma_lookup_prefix(e1, i as int, k);
                        } else {
                            lemma_lookup_agree(e0, e1, k);
                        }
                    }
                }
            },
            None => {
                let ghost kv = key@;
                self.entries.push((key, value));
                proof {
                    assert forall|j: int| 0 <= j < keys.len() implies keys[j] != kv by {
                        assert(keys[j] == e0[j].0);
                    }
                    lemma_first_index_none(keys, kv);
                    let e1 = self.spec_entries();
                    assert(e1 =~= e0.push((kv, value)));
                    lemma_lookup_prefix(e0, e0.len() as int, kv);
                    assert(e0.skip(e0.len() as int) =~= Seq::<(Seq<char>, ModelPricing)>::empty());
                    assert forall|k: Seq<char>| #[trigger] lookup_price(e1, k) == if k == kv {
                        Some(value)
                    } else {
                        lookup_price(e0, k)
                    } by {
                        lemma_lookup_push(e0, (kv, value), k);
                    }
                }
            },
        }
    }

    /// The stored entries, in the order they were first stored.
    pub fn entries(&self) -> (r: &Vec<(String, ModelPricing)>)
        ensures
            price_entries_view(r@) == self.spec_entries(),
    {
        &self.entries
    }
}

/// Lists that agree on where `k` is, and on what is stored there, agree on its price.
proof fn lemma_lookup_agree(e0: Seq<(Seq<char>, ModelPricing)>, e1: Seq<(Seq<char>, ModelPricing)>, k: Seq<char>)
    requires
        e0.len() == e1.len(),
        forall|j: int| 0 <= j < e0.len() ==> ((#[trigger] e0[j]).0 == k) == (e1[j].0 == k),
        forall|j: int| 0 <= j < e0.len() && (#[trigger] e0[j]).0 == k ==> e0[j] == e1[j],
    ensures
        lookup_price(e0, k) == lookup_price(e1, k),
    decreases e0.len(),
{
    if e0.len() > 0 {
        assert forall|j: int| 0 <= j < e0.skip(1).len() implies ((#[trigger] e0.skip(1)[j]).0 == k) == (
        e1.skip(1)[j].0 == k) by {
            assert(e0.skip(1)[j] == e0[j + 1]);
            assert(e1.skip(1)[j] == e1[j + 1]);
        }
        assert forall|j: int| 0 <= j < e0.skip(1).len() && (#[trigger] e0.skip(1)[j]).0 == k implies e0.skip(1)[j]
            == e1.skip(1)[j] by {
            assert(e0.skip(1)[j] == e0[j + 1]);
            assert(e1.skip(1)[j] == e1[j + 1]);
        }
        lemma_lookup_agree(e0.skip(1), e1.skip(1), k);
    }
}

/// Appending an entry only matters for keys not stored before.
proof fn lemma_lookup_push(e: Seq<(Seq<char>, ModelPricing)>, x: (Seq<char>, ModelPricing), k: Seq<char>)
    ensures
        lookup_price(e.push(x), k) == match lookup_price(e, k) {
            Some(v) => Some(v),
            None => if x.0 == k {
                Some(x.1)
            } else {
                None
            },
        },
    decreases e.len(),
{
    if e.len() > 0 {
        assert(e.push(x).skip(1) =~= e.skip(1).push(x));
        assert(e.push(x)[0] == e[0]);
        lemma_lookup_push(e.skip(1), x, k);
        assert(lookup_price(e.push(x), k) == if e[0].0 == k {
            Some(e[0].1)
        } else {
            lookup_price(e.skip(1).push(x), k)
        });
    } else {
        let empty = Seq::<(Seq<char>, ModelPricing)>::empty();
        assert(e.push(x).skip(1) =~= empty);
        assert(e.push(x)[0] == x);
        assert(lookup_price(empty, k) is None);
        assert(lookup_price(e, k) is None);
    }
}

/// Index of the first entry of `keys` equal to `k`, if there is one.
pub open spec fn first_index<K>(keys: Seq<K>, k: K) -> Option<int> {
    if exists|i: int| 0 <= i < keys.len() && keys[i] == k {
        Some(choose|i: int| 0 <= i < keys.len() && keys[i] == k && forall|j: int| 0 <= j < i ==> keys[j] != k)
    } else {
        None
    }
}

pub proof fn lemma_first_index_at<K>(keys: Seq<K>, k: K, i: int)
    requires
        0 <= i < keys.len(),
        keys[i] == k,
        forall|j: int| 0 <= j < i ==> keys[j] != k,
    ensures
        first_index(keys, k) == Some(i),
{
    let c = choose|c: int| 0 <= c < keys.len() && keys[c] == k && forall|j: int| 0 <= j < c ==> keys[j] != k;
    assert(0 <= c < keys.len() && keys[c] == k && forall|j: int| 0 <= j < c ==> keys[j] != k);
    if c < i {
        assert(keys[c] != k);
    } else if c > i {
        assert(keys[i] != k);
    }
}

pub proof fn lemma_first_index_none<K>(keys: Seq<K>, k: K)
    requires
        forall|j: int| 0 <= j < keys.len() ==> keys[j] != k,
    ensures
        first_index(keys, k) is None,
{
}

/// The key under which a model's price is stored: the provider's slug, a slash, the model.
pub open spec fn spec_pricing_key(provider: ProviderId, model: Seq<char>) -> Seq<char> {
    provider.spec_slug() + "/"@ + model
}

/// The key under which a model's price is stored.
pub fn pricing_key(provider: ProviderId, model: &str) -> (r: String)
    ensures
        r@ == spec_pricing_key(provider, model@),
{
    let mut r = String::from_str(provider.slug());
    r.append("/");
    r.append(model);
    r
}

/// A provider profile as id, endpoint override and model.
pub type ProfileView = (ProviderId, Option<Seq<char>>, Seq<char>);

pub open spec fn profile_view(p: ProviderProfile) -> ProfileView {
    (
        p.id,
        match p.base_url {
            Some(u) => Some(u@),
            None => None,
        },
        p.model@,
    )
}

pub open spec fn profiles_view(v: Seq<ProviderProfile>) -> Seq<ProfileView> {
    v.map_values(|p: ProviderProfile| profile_view(p))
}

/// Every provider, in the order they are offered.
pub open spec fn all_provider_ids() -> Seq<ProviderId> {
    seq![ProviderId::Gemini, ProviderId::OpenAiCompatible, ProviderId::Ollama]
}

/// The profile a provider starts with.
pub open spec fn fresh_profile(id: ProviderId) -> ProfileView {
    (id, None, id.spec_default_model())
}

/// Whether some profile is for `id`.
pub open spec fn has_profile(ps: Seq<ProfileView>, id: ProviderId) -> bool {
    exists|j: int| 0 <= j < ps.len() && (#[trigger] ps[j]).0 == id
}

/// `ps`, with a fresh profile for `id` appended if it had none.
pub open spec fn with_profile(ps: Seq<ProfileView>, id: ProviderId) -> Seq<ProfileView> {
    if has_profile(ps, id) {
        ps
    } else {
        ps.push(fresh_profile(id))
    }
}

/// `ps`, with a fresh profile appended for each of `ids` that had none, in order.
pub open spec fn with_profiles(ps: Seq<ProfileView>, ids: Seq<ProviderId>) -> Seq<ProfileView>
    decreases ids.len(),
{
    if ids.len() == 0 {
        ps
    } else {
        with_profile(with_profiles(ps, ids.drop_last()), ids.last())
    }
}

/// A profile whose model is blank gets its provider's default model.
pub open spec fn with_model(p: ProfileView) -> ProfileView {
    if all_ws(p.2) {
        (p.0, p.1, p.0.spec_default_model())
    } else {
        p
    }
}

/// The profiles after normalisation.
pub open spec fn normalized_profiles(ps: Seq<ProfileView>) -> Seq<ProfileView> {
    with_profiles(ps, all_provider_ids()).map_values(|p: ProfileView| with_model(p))
}

/// The custom personas after normalisation: those that reuse a built-in id are
/// dropped, and none is marked built-in.
pub open spec fn normalized_custom_personas(s: Seq<PersonaView>) -> Seq<PersonaView> {
    custom_kept(s).map_values(|p: PersonaView| unmarked(p))
}

/// The personas of `s` whose id no built-in persona has.
pub open spec fn custom_kept(s: Seq<PersonaView>) -> Seq<PersonaView> {
    s.filter(|p: PersonaView| !builtin_persona_ids().contains(p.0))
}

/// A persona with its built-in flag cleared.
pub open spec fn unmarked(p: PersonaView) -> PersonaView {
    (p.0, p.1, p.2, false)
}

/// The window opacity, kept between `OPACITY_MIN` and 100.
pub open spec fn clamped_opacity(o: u8) -> u8 {
    if o < OPACITY_MIN {
        OPACITY_MIN
    } else if o > 100 {
        100
    } else {
        o
    }
}

/// Appends a fresh profile for `id` unless one exists.
fn ensure_profile(providers: &mut Vec<ProviderProfile>, id: ProviderId)
    ensures
        profiles_view(final(providers)@) == with_profile(profiles_view(old(providers)@), id),
{
    let ghost ps = profiles_view(providers@);
    let mut j: usize = 0;
    while j < providers.len()
        invariant
            j <= providers@.len(),
            ps == profiles_view(providers@),
            forall|k: int| 0 <= k < j ==> (#[trigger] ps[k]).0 != id,
        decreases providers@.len() - j,
    {
        if providers[j].id == id {
            assert(ps[j as int].0 == id);
            return;
        }
        j = j + 1;
    }
    let ghost prev = providers@;
    providers.push(ProviderProfile::new(id));
    assert(profiles_view(providers@) =~= ps.push(fresh_profile(id)));
}

/// The user's settings.
#[derive(Debug, Clone)]
pub struct AppSettings {
    pub schema_version: u32,
    pub enabled: bool,
    pub hotkey: String,
    pub persona_id: String,
    pub custom_personas: Vec<Persona>,
    pub language_tag: String,
    pub custom_languages: Vec<Language>,
    pub translate: bool,
    pub speed: Speed,
    pub active_provider: ProviderId,
    pub providers: Vec<ProviderProfile>,
    pub pricing: PricingTable,
    pub behavior: BehaviorSettings,
    pub system: SystemSettings,
    pub appearance: AppearanceSettings,
    pub sidebar: SidebarLayout,
}

impl Default for AppSettings {
    fn default() -> (r: Self)
        ensures
            r.schema_version == CURRENT_SCHEMA_VERSION,
            r.enabled,
            r.hotkey@ == DEFAULT_HOTKEY@,
            r.persona_id@ == DEFAULT_PERSONA_ID@,
            r.custom_personas@.len() == 0,
            r.language_tag@ == AUTO_TAG@,
            r.custom_languages@.len() == 0,
            !r.translate,
            r.speed == Speed::Normal,
            r.active_provider == ProviderId::Gemini,
            profiles_view(r.providers@) == all_provider_ids().map_values(|id: ProviderId| fresh_profile(id)),
            forall|k: Seq<char>| (#[trigger] r.pricing.spec_get(k)) is None,
            r.behavior == (BehaviorSettings {
                input_source: InputSource::Selection,
                output_mode: OutputMode::Review,
                minimize_to_tray: true,
                show_notifications: true,
                play_sound: false,
                auto_copy_fixed: false,
                keep_history: true,
            }),
            r.system == (SystemSettings { start_with_os: false, start_minimized: false, check_for_updates: true }),
            r.appearance == (AppearanceSettings { theme: Theme::System, opacity: 100 }),
            categories_view(r.sidebar.categories@) == seq![(DEFAULT_CATEGORY_ID@, "General"@, false, sections())],
    {
        let providers = vec![
            ProviderProfile::new(ProviderId::Gemini),
            ProviderProfile::new(ProviderId::OpenAiCompatible),
            ProviderProfile::new(ProviderId::Ollama),
        ];
        assert(profiles_view(providers@) =~= all_provider_ids().map_values(|id: ProviderId| fresh_profile(id)));
        AppSettings {
            schema_version: CURRENT_SCHEMA_VERSION,
            enabled: true,
            hotkey: String::from_str(DEFAULT_HOTKEY),
            persona_id: String::from_str(DEFAULT_PERSONA_ID),
            custom_personas: Vec::new(),
            language_tag: String::from_str(AUTO_TAG),
            custom_languages: Vec::new(),
            translate: false,
            speed: Speed::default(),
            active_provider: ProviderId::default(),
            providers,
            pricing: PricingTable::new(),
            behavior: BehaviorSettings::default(),
            system: SystemSettings::default(),
            appearance: AppearanceSettings::default(),
            sidebar: SidebarLayout::default(),
        }
    }
}

impl AppSettings {
    /// The built-in personas followed by the user's own.
    pub open spec fn spec_all_personas(&self) -> Seq<PersonaView> {
        builtin_personas_view() + personas_view(self.custom_personas@)
    }

    /// The built-in languages followed by the user's own.
    pub open spec fn spec_all_languages(&self) -> Seq<LanguageView> {
        builtin_languages_view() + languages_view(self.custom_languages@)
    }

    /// The persona in use: the first offered one with the chosen id, else the default.
    pub open spec fn spec_active_persona(&self) -> PersonaView {
        let all = self.spec_all_personas();
        match first_index(all.map_values(|p: PersonaView| p.0), self.persona_id@) {
            Some(i) => all[i],
            None => builtin_personas_view()[0],
        }
    }

    /// The language in use: the first offered one with the chosen tag, else automatic detection.
    pub open spec fn spec_active_language(&self) -> LanguageView {
        let all = self.spec_all_languages();
        match first_index(all.map_values(|l: LanguageView| l.0), self.language_tag@) {
            Some(i) => all[i],
            None => builtin_languages_view()[0],
        }
    }

    /// Every persona on offer: the built-in ones, then the user's own.
    pub fn all_personas(&self) -> (r: Vec<Persona>)
        ensures
            personas_view(r@) == self.spec_all_personas(),
    {
        let mut r = builtin_personas();
        let mut i: usize = 0;
        while i < self.custom_personas.len()
            invariant
                i <= self.custom_personas@.len(),
                personas_view(r@) == builtin_personas_view() + personas_view(self.custom_personas@).take(i as int),
            decreases self.custom_personas@.len() - i,
        {
            let ghost prev = r@;
            r.push(self.custom_personas[i].clone());
            assert(personas_view(r@) =~= personas_view(prev).push(persona_view(self.custom_personas@[i as int])));
            assert(personas_view(self.custom_personas@).take(i + 1) =~= personas_view(self.custom_personas@).take(
                i as int,
            ).push(persona_view(self.custom_personas@[i as int])));
            i = i + 1;
        }
        assert(personas_view(self.custom_personas@).take(i as int) =~= personas_view(self.custom_personas@));
        r
    }

    /// Every language on offer: the built-in ones, then the user's own.
    pub fn all_languages(&self) -> (r: Vec<Language>)
        ensures
            languages_view(r@) == self.spec_all_languages(),
    {
        let mut r = builtin_languages();
        let mut i: usize = 0;
        while i < self.custom_languages.len()
            invariant
                i <= self.custom_languages@.len(),
                languages_view(r@) == builtin_languages_view() + languages_view(self.custom_languages@).take(i as int),
            decreases self.custom_languages@.len() - i,
        {
            let ghost prev = r@;
            r.push(self.custom_languages[i].clone());
            assert(languages_view(r@) =~= languages_view(prev).push(language_view(self.custom_languages@[i as int])));
            assert(languages_view(self.custom_languages@).take(i + 1) =~= languages_view(self.custom_languages@).take(
                i as int,
            ).push(language_view(self.custom_languages@[i as int])));
            i = i + 1;
        }
        assert(languages_view(self.custom_languages@).take(i as int) =~= languages_view(self.custom_languages@));
        r
    }

    /// The persona corrections are made in.
    pub fn active_persona(&self) -> (r: Persona)
        ensures
            persona_view(r) == self.spec_active_persona(),
    {
        let all = self.all_personas();
        let ghost ids = self.spec_all_personas().map_values(|p: PersonaView| p.0);
        let mut i: usize = 0;
        while i < all.len()
            invariant
                i <= all@.len(),
                personas_view(all@) == self.spec_all_personas(),
                ids == self.spec_all_personas().map_values(|p: PersonaView| p.0),
                forall|j: int| 0 <= j < i ==> ids[j] != self.persona_id@,
            decreases all@.len() - i,
        {
            assert(ids[i as int] == all@[i as int].id@);
            if eq_str(all[i].id.as_str(), self.persona_id.as_str()) {
                proof {
                    lemma_first_index_at(ids, self.persona_id@, i as int);
                }
                return all[i].clone();
            }
            i = i + 1;
        }
        proof {
            lemma_first_index_none(ids, self.persona_id@);
            reveal_strlit("standard");
            let c = builtin_persona_index(DEFAULT_PERSONA_ID@);
            assert(builtin_persona_table()[0].0 == DEFAULT_PERSONA_ID@);
            assert(c is Some);
            if c->0 > 0 {
                assert(builtin_persona_table()[0].0 != DEFAULT_PERSONA_ID@);
            }
        }
        let fallback = builtin_persona(DEFAULT_PERSONA_ID);
        fallback.unwrap()
    }

    /// The language corrections are made in.
    pub fn active_language(&self) -> (r: Language)
        ensures
            language_view(r) == self.spec_active_language(),
    {
        let all = self.all_languages();
        let ghost ids = self.spec_all_languages().map_values(|l: LanguageView| l.0);
        let mut i: usize = 0;
        while i < all.len()
            invariant
                i <= all@.len(),
                languages_view(all@) == self.spec_all_languages(),
                ids == self.spec_all_languages().map_values(|l: LanguageView| l.0),
                forall|j: int| 0 <= j < i ==> ids[j] != self.language_tag@,
            decreases all@.len() - i,
        {
            assert(ids[i as int] == all@[i as int].tag@);
            if eq_str(all[i].tag.as_str(), self.language_tag.as_str()) {
                proof {
                    lemma_first_index_at(ids, self.language_tag@, i as int);
                }
                return all[i].clone();
            }
            i = i + 1;
        }
        proof {
            lemma_first_index_none(ids, self.language_tag@);
        }
        auto_language()
    }

    /// The settings of `provider`: its first profile, else a fresh one.
    pub open spec fn spec_profile_for(&self, provider: ProviderId) -> ProfileView {
        match first_index(profiles_view(self.providers@).map_values(|p: ProfileView| p.0), provider) {
            Some(i) => profile_view(self.providers@[i]),
            None => fresh_profile(provider),
        }
    }

    /// The settings of the provider in use.
    pub open spec fn spec_active_profile(&self) -> ProfileView {
        self.spec_profile_for(self.active_provider)
    }

    /// The settings of `provider`: its first profile, else a fresh one.
    pub fn profile_for(&self, provider: ProviderId) -> (r: ProviderProfile)
        ensures
            profile_view(r) == self.spec_profile_for(provider),
            match first_index(profiles_view(self.providers@).map_values(|p: ProfileView| p.0), provider) {
                Some(i) => r == self.providers@[i],
                None => profile_view(r) == fresh_profile(provider),
            },
    {
        let ghost ids = profiles_view(self.providers@).map_values(|p: ProfileView| p.0);
        let mut i: usize = 0;
        while i < self.providers.len()
            invariant
                i <= self.providers@.len(),
                ids == profiles_view(self.providers@).map_values(|p: ProfileView| p.0),
                forall|j: int| 0 <= j < i ==> ids[j] != provider,
            decreases self.providers@.len() - i,
        {
            assert(ids[i as int] == self.providers@[i as int].id);
            if self.providers[i].id == provider {
                proof {
                    lemma_first_index_at(ids, provider, i as int);
                }
                return self.providers[i].clone();
            }
            i = i + 1;
        }
        proof {
            lemma_first_index_none(ids, provider);
        }
        ProviderProfile::new(provider)
    }

    /// The settings of the provider in use: its first profile, else a fresh one.
    pub fn active_provider_profile(&self) -> (r: ProviderProfile)
        ensures
            profile_view(r) == self.spec_active_profile(),
            match first_index(profiles_view(self.providers@).map_values(|p: ProfileView| p.0), self.active_provider) {
                Some(i) => r == self.providers@[i],
                None => profile_view(r) == fresh_profile(self.active_provider),
            },
    {
        self.profile_for(self.active_provider)
    }

    /// The configured price of a model, or zero where none is set.
    pub fn pricing_for(&self, provider: ProviderId, model: &str) -> (r: ModelPricing)
        ensures
            r == match self.pricing.spec_get(spec_pricing_key(provider, model@)) {
                Some(p) => p,
                None => ModelPricing { input_per_million_bits: 0, output_per_million_bits: 0 },
            },
    {
        let key = pricing_key(provider, model);
        match self.pricing.get(key.as_str()) {
            Some(p) => p,
            None => ModelPricing::default(),
        }
    }

    /// Repairs what a hand-edited or older settings file may hold: opacity out
    /// of range, a stale sidebar, a blank hotkey, translation without a target,
    /// missing provider profiles or models, custom personas that shadow a
    /// built-in one.
    pub fn normalize(&mut self)
        ensures
            final(self).schema_version == old(self).schema_version,
            final(self).enabled == old(self).enabled,
            final(self).hotkey@ == (if all_ws(old(self).hotkey@) {
                DEFAULT_HOTKEY@
            } else {
                old(self).hotkey@
            }),
            final(self).persona_id == old(self).persona_id,
            personas_view(final(self).custom_personas@) == normalized_custom_personas(
                personas_view(old(self).custom_personas@),
            ),
            final(self).language_tag == old(self).language_tag,
            final(self).custom_languages == old(self).custom_languages,
            final(self).translate == (old(self).translate && old(self).language_tag@ != AUTO_TAG@),
            final(self).speed == old(self).speed,
            final(self).active_provider == old(self).active_provider,
            profiles_view(final(self).providers@) == normalized_profiles(profiles_view(old(self).providers@)),
            final(self).pricing == old(self).pricing,
            final(self).behavior == old(self).behavior,
            final(self).system == old(self).system,
            final(self).appearance.theme == old(self).appearance.theme,
            final(self).appearance.opacity == clamped_opacity(old(self).appearance.opacity),
            categories_view(final(self).sidebar.categories@) == normalized_categories(
                categories_view(old(self).sidebar.categories@),
            ),
    {
        let o = self.appearance.opacity;
        self.appearance.opacity = if o < OPACITY_MIN {
            OPACITY_MIN
        } else if o > 100 {
            100
        } else {
            o
        };
        self.sidebar.normalize();

        if is_blank(self.hotkey.as_str()) {
            self.hotkey = String::from_str(DEFAULT_HOTKEY);
        }
        if self.translate && eq_str(self.language_tag.as_str(), AUTO_TAG) {
            self.translate = false;
        }

        normalize_profiles(&mut self.providers);
        let kept = kept_custom_personas(&self.custom_personas);
        self.custom_personas = kept;
    }
}

/// Adds the missing provider profiles and gives blank models their default.
fn normalize_profiles(providers: &mut Vec<ProviderProfile>)
    ensures
        profiles_view(final(providers)@) == normalized_profiles(profiles_view(old(providers)@)),
{
    let ghost ps0 = profiles_view(providers@);
    let ids = ProviderId::ALL;
    let mut k: usize = 0;
    while k < 3
        invariant
            k <= 3,
            ids@ == all_provider_ids(),
            profiles_view(providers@) == with_profiles(ps0, all_provider_ids().take(k as int)),
        decreases 3 - k,
    {
        ensure_profile(providers, ids[k]);
        assert(all_provider_ids().take(k + 1).drop_last() =~= all_provider_ids().take(k as int));
        k = k + 1;
    }
    assert(all_provider_ids().take(3) =~= all_provider_ids());
    let ghost ps1 = profiles_view(providers@);
    let mut i: usize = 0;
    while i < providers.len()
        invariant
            i <= providers@.len(),
            ps1.len() == providers@.len(),
            forall|j: int| 0 <= j < i ==> #[trigger] profile_view(providers@[j]) == with_model(ps1[j]),
            forall|j: int| i <= j < ps1.len() ==> #[trigger] profile_view(providers@[j]) == ps1[j],
        decreases providers@.len() - i,
    {
        assert(profile_view(providers@[i as int]) == ps1[i as int]);
        if is_blank(providers[i].model.as_str()) {
            let old_profile = providers[i].clone();
            let id = old_profile.id;
            let p = ProviderProfile {
                id,
                base_url: old_profile.base_url,
                model: String::from_str(id.default_model()),
            };
            providers.set(i, p);
        }
        i = i + 1;
    }
    assert(profiles_view(providers@) =~= ps1.map_values(|p: ProfileView| with_model(p)));
}

/// The custom personas whose id no built-in persona has, none marked built-in.
fn kept_custom_personas(custom: &Vec<Persona>) -> (r: Vec<Persona>)
    ensures
        personas_view(r@) == normalized_custom_personas(personas_view(custom@)),
{
    let builtin_ids = builtin_persona_id_list();
    let ghost cs = personas_view(custom@);
    let mut kept: Vec<Persona> = Vec::new();
    let mut j: usize = 0;
    while j < custom.len()
        invariant
            j <= custom@.len(),
            cs == personas_view(custom@),
            strings_view(builtin_ids@) == builtin_persona_ids(),
            personas_view(kept@) == custom_kept(cs.take(j as int)).map_values(|p: PersonaView| unmarked(p)),
        decreases custom@.len() - j,
    {
        let p = &custom[j];
        let ghost prev = kept@;
        let ghost pv = persona_view(*p);
        assert(cs.take(j + 1).drop_last() =~= cs.take(j as int));
        assert(cs.take(j + 1).last() == pv);
        if !contains_string(&builtin_ids, p.id.as_str()) {
            kept.push(Persona {
                id: p.id.clone(),
                name: p.name.clone(),
                instruction: p.instruction.clone(),
                builtin: false,
            });
            assert(custom_kept(cs.take(j + 1)) == custom_kept(cs.take(j as int)).push(pv)) by {
                reveal(Seq::filter);
            }
            assert(persona_view(kept@.last()) == unmarked(pv));
            assert(personas_view(kept@) =~= personas_view(prev).push(unmarked(pv)));
            assert(custom_kept(cs.take(j as int)).push(pv).map_values(|p: PersonaView| unmarked(p))
                =~= custom_kept(cs.take(j as int)).map_values(|p: PersonaView| unmarked(p)).push(unmarked(pv)));
        } else {
            assert(custom_kept(cs.take(j + 1)) == custom_kept(cs.take(j as int))) by {
                reveal(Seq::filter);
            }
        }
        j = j + 1;
    }
    assert(cs.take(j as int) =~= cs);
    kept
}

/// The ids of the built-in personas, in order.
fn builtin_persona_id_list() -> (r: Vec<String>)
    ensures
        strings_view(r@) == builtin_persona_ids(),
{
    let all = builtin_personas();
    let mut r: Vec<String> = Vec::new();
    let mut i: usize = 0;
    while i < all.len()
        invariant
            i <= all@.len(),
            personas_view(all@) == builtin_personas_view(),
            all@.len() == builtin_persona_table().len(),
            strings_view(r@) == builtin_persona_ids().take(i as int),
        decreases all@.len() - i,
    {
        let ghost prev = r@;
        assert(all@.len() == builtin_persona_table().len()) by {
            assert(personas_view(all@).len() == all@.len());
        }
        assert(all@[i as int].id@ == builtin_persona_ids()[i as int]) by {
            assert(personas_view(all@)[i as int] == persona_view(all@[i as int]));
            assert(builtin_personas_view()[i as int].0 == builtin_persona_table()[i as int].0);
        }
        r.push(all[i].id.clone());
        assert(strings_view(r@) =~= strings_view(prev).push(all@[i as int].id@));
        assert(builtin_persona_ids().take(i + 1) =~= builtin_persona_ids().take(i as int).push(
            builtin_persona_ids()[i as int],
        ));
        i = i + 1;
    }
    assert(builtin_persona_ids().take(i as int) =~= builtin_persona_ids());
    r
}

/// Appending fresh profiles keeps the providers that had one and adds those of `ids`.
proof fn lemma_with_profiles_has(ps: Seq<ProfileView>, ids: Seq<ProviderId>, id: ProviderId)
    requires
        has_profile(ps, id) || ids.contains(id),
    ensures
        has_profile(with_profiles(ps, ids), id),
    decreases ids.len(),
{
    if ids.len() > 0 {
        let prev = with_profiles(ps, ids.drop_last());
        if has_profile(ps, id) || ids.drop_last().contains(id) {
            lemma_with_profiles_has(ps, ids.drop_last(), id);
            let j = choose|j: int| 0 <= j < prev.len() && (#[trigger] prev[j]).0 == id;
            if !has_profile(prev, ids.last()) {
                assert(prev.push(fresh_profile(ids.last()))[j] == prev[j]);
            }
        } else {
            let k = choose|k: int| 0 <= k < ids.len() && ids[k] == id;
            if k < ids.len() - 1 {
                assert(ids.drop_last()[k] == id);
            }
            assert(ids.last() == id);
            if !has_profile(prev, id) {
                assert(prev.push(fresh_profile(id))[prev.len() as int].0 == id);
            }
        }
    }
}

/// After normalisation every provider has a profile, and no profile has a blank model.
pub proof fn lemma_normalized_profiles_are_complete(ps: Seq<ProfileView>, id: ProviderId)
    ensures
        has_profile(normalized_profiles(ps), id),
        forall|i: int| 0 <= i < normalized_profiles(ps).len() ==> !all_ws(#[trigger] normalized_profiles(ps)[i].2),
{
    let w = with_profiles(ps, all_provider_ids());
    assert(all_provider_ids()[id_index(id)] == id);
    lemma_with_profiles_has(ps, all_provider_ids(), id);
    let j = choose|j: int| 0 <= j < w.len() && (#[trigger] w[j]).0 == id;
    assert(normalized_profiles(ps)[j].0 == id);
    reveal_strlit("gemini-2.5-flash");
    reveal_strlit("gpt-4o-mini");
    reveal_strlit("llama3.2");
    assert forall|i: int| 0 <= i < normalized_profiles(ps).len() implies !all_ws(#[trigger] normalized_profiles(ps)[i].2) by {
        let p = w[i];
        if all_ws(p.2) {
            assert(!is_ws(p.0.spec_default_model()[0]));
        }
    }
}

/// Appending profiles keeps the ones that were there, in place.
proof fn lemma_with_profiles_extends(ps: Seq<ProfileView>, ids: Seq<ProviderId>)
    ensures
        with_profiles(ps, ids).len() >= ps.len(),
        forall|i: int| 0 <= i < ps.len() ==> #[trigger] with_profiles(ps, ids)[i] == ps[i],
    decreases ids.len(),
{
    if ids.len() > 0 {
        lemma_with_profiles_extends(ps, ids.drop_last());
        let prev = with_profiles(ps, ids.drop_last());
        if !has_profile(prev, ids.last()) {
            assert forall|i: int| 0 <= i < ps.len() implies #[trigger] with_profiles(ps, ids)[i] == ps[i] by {
                assert(prev.push(fresh_profile(ids.last()))[i] == prev[i]);
            }
        }
    }
}

/// Normalising keeps every profile that was there, in its place: one with a
/// model keeps it unchanged; one whose model is blank keeps its provider and
/// endpoint and gets that provider's default model.
pub proof fn lemma_normalizing_keeps_the_chosen_models(ps: Seq<ProfileView>, i: int)
    requires
        0 <= i < ps.len(),
    ensures
        i < normalized_profiles(ps).len(),
        !all_ws(ps[i].2) ==> normalized_profiles(ps)[i] == ps[i],
        all_ws(ps[i].2) ==> normalized_profiles(ps)[i] == (ps[i].0, ps[i].1, ps[i].0.spec_default_model()),
{
    lemma_with_profiles_extends(ps, all_provider_ids());
    assert(with_profiles(ps, all_provider_ids())[i] == ps[i]);
}

/// A language of the user's own is offered after the built-in ones, and its
/// tag selects it, where neither a built-in language nor an earlier language
/// of the user's has the same tag.
pub proof fn lemma_a_custom_language_can_be_chosen(settings: AppSettings, i: int)
    requires
        0 <= i < settings.custom_languages@.len(),
        settings.language_tag@ == settings.custom_languages@[i].tag@,
        forall|j: int| 0 <= j < builtin_languages_view().len() ==> (#[trigger] builtin_languages_view()[j]).0
            != settings.language_tag@,
        forall|j: int| 0 <= j < i ==> (#[trigger] settings.custom_languages@[j]).tag@ != settings.language_tag@,
    ensures
        settings.spec_all_languages().len() == builtin_languages_view().len() + settings.custom_languages@.len(),
        settings.spec_all_languages()[builtin_languages_view().len() + i] == language_view(settings.custom_languages@[i]),
        settings.spec_active_language() == language_view(settings.custom_languages@[i]),
{
    let b = builtin_languages_view().len() as int;
    let all = settings.spec_all_languages();
    let keys = all.map_values(|l: LanguageView| l.0);
    let tag = settings.language_tag@;
    assert(all[b + i] == language_view(settings.custom_languages@[i]));
    assert forall|j: int| 0 <= j < b + i implies keys[j] != tag by {
        if j < b {
            assert(keys[j] == builtin_languages_view()[j].0);
        } else {
            assert(keys[j] == settings.custom_languages@[j - b].tag@);
        }
    }
    lemma_first_index_at(keys, tag, b + i);
}

/// Where `id` stands in `all_provider_ids()`.
spec fn id_index(id: ProviderId) -> int {
    match id {
        ProviderId::Gemini => 0,
        ProviderId::OpenAiCompatible => 1,
        ProviderId::Ollama => 2,
    }
}

/// After normalisation no custom persona reuses a built-in id or is marked built-in.
pub proof fn lemma_normalized_custom_personas_are_custom(s: Seq<PersonaView>, i: int)
    requires
        0 <= i < normalized_custom_personas(s).len(),
    ensures
        !builtin_persona_ids().contains(normalized_custom_personas(s)[i].0),
        !normalized_custom_personas(s)[i].3,
{
    broadcast use vstd::seq_lib::group_filter_ensures;

    assert(normalized_custom_personas(s)[i] == unmarked(custom_kept(s)[i]));
}

/// The window opacity after normalisation lies between `OPACITY_MIN` and 100.
pub proof fn lemma_clamped_opacity_in_range(o: u8)
    ensures
        OPACITY_MIN <= clamped_opacity(o) <= 100,
        OPACITY_MIN <= o <= 100 ==> clamped_opacity(o) == o,
{
}

/// After normalisation the hotkey is never blank.
pub proof fn lemma_normalized_hotkey_is_set(hotkey: Seq<char>)
    ensures
        !all_ws(if all_ws(hotkey) {
            DEFAULT_HOTKEY@
        } else {
            hotkey
        }),
{
    reveal_strlit("Ctrl+Alt+G");
    assert(!is_ws(DEFAULT_HOTKEY@[0]));
}

/// A group whose panels are all known, all new and listed once keeps them all.
proof fn lemma_kept_keeps_all(items: Seq<Seq<char>>, placed: Seq<Seq<char>>)
    requires
        forall|k: int| 0 <= k < items.len() ==> sections().contains(#[trigger] items[k]) && !placed.contains(items[k]),
        items.no_duplicates(),
    ensures
        kept_items(items, placed) == items,
    decreases items.len(),
{
    if items.len() > 0 {
        let d = items.drop_last();
        assert forall|i: int, j: int| 0 <= i < d.len() && 0 <= j < d.len() && i != j implies d[i] != d[j] by {
            assert(d[i] == items[i] && d[j] == items[j]);
        }
        lemma_kept_keeps_all(d, placed);
        let x = items.last();
        assert(sections().contains(items[items.len() - 1]));
        if d.contains(x) {
            let idx = choose|idx: int| 0 <= idx < d.len() && d[idx] == x;
            assert(items[idx] == items[items.len() - 1]);
        }
        assert(d.push(x) =~= items);
    }
}

/// Nothing is unplaced when every entry is placed.
proof fn lemma_nothing_unplaced(s: Seq<Seq<char>>, placed: Seq<Seq<char>>)
    requires
        forall|k: int| 0 <= k < s.len() ==> placed.contains(#[trigger] s[k]),
    ensures
        unplaced(s, placed) == Seq::<Seq<char>>::empty(),
    decreases s.len(),
{
    reveal(Seq::filter);
    if s.len() > 0 {
        lemma_nothing_unplaced(s.drop_last(), placed);
    }
}

/// What the first `i` groups of a normalised layout place is what they hold.
#[verifier::spinoff_prover]
proof fn lemma_normalized_placed(cats: Seq<CategoryView>, i: int, x: Seq<char>)
    requires
        0 <= i <= normalized_categories(cats).len(),
    ensures
        placed_before(groups_of(normalized_categories(cats)), i).contains(x) <==> exists|j: int|
            0 <= j < i && (#[trigger] groups_of(normalized_categories(cats))[j]).contains(x),
    decreases i, 0int,
{
    let n = normalized_categories(cats);
    let g = groups_of(n);
    if i > 0 {
        lemma_normalized_placed(cats, i - 1, x);
        lemma_normalized_group_is_kept(cats, i - 1);
        let p = placed_before(g, i - 1);
        vstd::seq_lib::lemma_seq_concat_contains_all_elements(p, g[i - 1], x);
        if exists|j: int| 0 <= j < i && (#[trigger] g[j]).contains(x) {
            let j = choose|j: int| 0 <= j < i && (#[trigger] g[j]).contains(x);
            if j < i - 1 {
                assert(p.contains(x));
            }
        }
    }
}

/// Each group of a normalised layout keeps all it holds.
#[verifier::spinoff_prover]
proof fn lemma_normalized_group_is_kept(cats: Seq<CategoryView>, i: int)
    requires
        0 <= i < normalized_categories(cats).len(),
    ensures
        kept_items(groups_of(normalized_categories(cats))[i], placed_before(groups_of(normalized_categories(cats)), i))
            == groups_of(normalized_categories(cats))[i],
    decreases i, 1int,
{
    let n = normalized_categories(cats);
    let g = groups_of(n);
    let p = placed_before(g, i);
    assert(g[i] == n[i].3);
    assert forall|k: int| 0 <= k < g[i].len() implies sections().contains(#[trigger] g[i][k]) && !p.contains(g[i][k]) by {
        let x = g[i][k];
        assert(n[i].3.contains(x));
        lemma_normalized_sidebar_holds_only_known_panels(cats, i, x);
        lemma_normalized_placed(cats, i, x);
        if p.contains(x) {
            let j = choose|j: int| 0 <= j < i && (#[trigger] g[j]).contains(x);
            assert(g[j] == n[j].3);
            lemma_normalized_sidebar_places_panels_once(cats, j, i, x);
        }
    }
    lemma_normalized_sidebar_lists_each_panel_once(cats, i);
    lemma_kept_keeps_all(g[i], p);
}

/// Normalising a layout a second time changes nothing.
pub proof fn lemma_normalizing_the_sidebar_twice_changes_nothing(cats: Seq<CategoryView>)
    ensures
        normalized_categories(normalized_categories(cats)) == normalized_categories(cats),
{
    let n = normalized_categories(cats);
    let g = groups_of(n);
    let len = n.len() as int;
    lemma_normalized_sidebar_has_named_categories(cats);
    let all = placed_before(g, len);
    assert forall|k: int| 0 <= k < sections().len() implies all.contains(#[trigger] sections()[k]) by {
        let x = sections()[k];
        assert(sections().contains(x));
        let i = lemma_normalized_sidebar_reaches_every_panel(cats, x);
        assert(g[i] == n[i].3);
        lemma_normalized_placed(cats, len, x);
    }
    lemma_nothing_unplaced(sections(), all);
    let nn = normalized_categories(n);
    assert forall|i: int| 0 <= i < n.len() implies #[trigger] nn[i] == n[i] by {
        lemma_normalized_group_is_kept(cats, i);
        assert(g[i] == n[i].3);
        assert(display_name(n[i].1) == n[i].1);
        assert(tidied(n, i) == n[i]);
        if i == 0 {
            assert(n[0].3 + unplaced(sections(), all) =~= n[0].3);
        }
    }
    assert(nn =~= n);
}

/// Appending profiles for providers that already have one changes nothing.
proof fn lemma_with_profiles_complete(ps: Seq<ProfileView>, ids: Seq<ProviderId>)
    requires
        forall|k: int| 0 <= k < ids.len() ==> has_profile(ps, #[trigger] ids[k]),
    ensures
        with_profiles(ps, ids) == ps,
    decreases ids.len(),
{
    if ids.len() > 0 {
        lemma_with_profiles_complete(ps, ids.drop_last());
        assert(has_profile(ps, ids[ids.len() - 1]));
    }
}

/// Normalising the settings a second time changes nothing: not the opacity,
/// the hotkey, the translation switch, the provider profiles, the custom
/// personas nor the sidebar.
pub proof fn lemma_normalizing_settings_twice_changes_nothing(
    opacity: u8,
    hotkey: Seq<char>,
    translate: bool,
    language_tag: Seq<char>,
    profiles: Seq<ProfileView>,
    customs: Seq<PersonaView>,
    cats: Seq<CategoryView>,
)
    ensures
        clamped_opacity(clamped_opacity(opacity)) == clamped_opacity(opacity),
        ({
            let h = if all_ws(hotkey) {
                DEFAULT_HOTKEY@
            } else {
                hotkey
            };
            (if all_ws(h) {
                DEFAULT_HOTKEY@
            } else {
                h
            }) == h
        }),
        ((translate && language_tag != AUTO_TAG@) && language_tag != AUTO_TAG@) == (translate && language_tag
            != AUTO_TAG@),
        normalized_profiles(normalized_profiles(profiles)) == normalized_profiles(profiles),
        normalized_custom_personas(normalized_custom_personas(customs)) == normalized_custom_personas(customs),
        normalized_categories(normalized_categories(cats)) == normalized_categories(cats),
{
    lemma_normalized_hotkey_is_set(hotkey);
    lemma_normalizing_the_sidebar_twice_changes_nothing(cats);

    let n = normalized_profiles(profiles);
    assert forall|k: int| 0 <= k < all_provider_ids().len() implies has_profile(n, #[trigger] all_provider_ids()[k]) by {
        lemma_normalized_profiles_are_complete(profiles, all_provider_ids()[k]);
    }
    lemma_with_profiles_complete(n, all_provider_ids());
    lemma_normalized_profiles_are_complete(profiles, ProviderId::Gemini);
    assert(n.map_values(|p: ProfileView| with_model(p)) =~= n);

    let c = normalized_custom_personas(customs);
    assert forall|k: int| 0 <= k < c.len() implies !builtin_persona_ids().contains((#[trigger] c[k]).0) by {
        lemma_normalized_custom_personas_are_custom(customs, k);
    }
    lemma_custom_kept_keeps_all(c);
    assert forall|k: int| 0 <= k < c.len() implies unmarked(#[trigger] c[k]) == c[k] by {
        lemma_normalized_custom_personas_are_custom(customs, k);
    }
    assert(c.map_values(|p: PersonaView| unmarked(p)) =~= c);
}

/// Personas none of which reuses a built-in id are all kept.
proof fn lemma_custom_kept_keeps_all(s: Seq<PersonaView>)
    requires
        forall|k: int| 0 <= k < s.len() ==> !builtin_persona_ids().contains((#[trigger] s[k]).0),
    ensures
        custom_kept(s) == s,
    decreases s.len(),
{
    reveal(Seq::filter);
    if s.len() > 0 {
        lemma_custom_kept_keeps_all(s.drop_last());
        assert(s.drop_last().push(s.last()) =~= s);
    }
}

/// Why the settings could not be loaded or saved.
#[derive(Debug)]
pub enum SettingsError {
    Read { path: String, detail: String },
    Write { path: String, detail: String },
    Parse(String),
    FromTheFuture { found: u32 },
}

impl SettingsError {
    /// The error as a sentence for the user.
    pub open spec fn spec_message(&self) -> Seq<char> {
        match self {
            SettingsError::Read { path, detail } => "could not read settings from "@ + path@ + ": "@ + detail@,
            SettingsError::Write { path, detail } => "could not write settings to "@ + path@ + ": "@ + detail@,
            SettingsError::Parse(detail) => "settings file is not valid JSON: "@ + detail@,
            SettingsError::FromTheFuture { found } => "settings were written by a newer version of ZyntaxAI (schema "@
                + decimal(*found as nat) + ", this build understands "@ + decimal(CURRENT_SCHEMA_VERSION as nat)
                + "); upgrade the app rather than downgrading the file"@,
        }
    }

    /// The error as a sentence for the user.
    pub fn message(&self) -> (m: String)
        ensures
            m@ == self.spec_message(),
    {
        match self {
            SettingsError::Read { path, detail } => {
                let mut m = String::from_str("could not read settings from ");
                m.append(path.as_str());
                m.append(": ");
                m.append(detail.as_str());
                m
            },
            SettingsError::Write { path, detail } => {
                let mut m = String::from_str("could not write settings to ");
                m.append(path.as_str());
                m.append(": ");
                m.append(detail.as_str());
                m
            },
            SettingsError::Parse(detail) => {
                let mut m = String::from_str("settings file is not valid JSON: ");
                m.append(detail.as_str());
                m
            },
            SettingsError::FromTheFuture { found } => {
                let mut m = String::from_str("settings were written by a newer version of ZyntaxAI (schema ");
                push_decimal(&mut m, *found as u64);
                m.append(", this build understands ");
                push_decimal(&mut m, CURRENT_SCHEMA_VERSION as u64);
                m.append("); upgrade the app rather than downgrading the file");
                m
            },
        }
    }
}

/// The schema version a settings document declares: its `schemaVersion`
/// number, held at `u32::MAX` where it is larger, or 0 for a document from
/// before versions.
pub open spec fn spec_found_schema_version(declared: Option<u64>) -> u32 {
    match declared {
        Some(v) => if v > u32::MAX {
            u32::MAX
        } else {
            v as u32
        },
        None => 0u32,
    }
}

/// The schema version a settings document declares (`declared`: its
/// `schemaVersion`, where that is an unsigned integer).
pub fn found_schema_version(declared: Option<u64>) -> (r: u32)
    ensures
        r == spec_found_schema_version(declared),
{
    match declared {
        Some(v) => if v > u32::MAX as u64 {
            u32::MAX
        } else {
            v as u32
        },
        None => 0,
    }
}

/// A document is refused as one from a newer build exactly when it declares
/// a schema version above the current one, however large; any other document
/// is migrated from the version it declares (0 where it declares none).
pub proof fn lemma_newer_documents_are_refused(declared: Option<u64>)
    ensures
        spec_found_schema_version(declared) > CURRENT_SCHEMA_VERSION <==> (declared matches Some(v) && v
            > CURRENT_SCHEMA_VERSION),
        spec_found_schema_version(declared) <= CURRENT_SCHEMA_VERSION ==> spec_found_schema_version(declared)
            == match declared {
            Some(v) => v as int,
            None => 0int,
        },
{
}

/// The migrations a document of schema `found` goes through, oldest first:
/// one per version from `found` up to the current one. A document from a
/// newer build is refused.
pub fn migrations_for(found: u32) -> (r: Result<Vec<u32>, SettingsError>)
    ensures
        found > CURRENT_SCHEMA_VERSION ==> (r matches Err(SettingsError::FromTheFuture { found: f }) && f == found),
        found <= CURRENT_SCHEMA_VERSION ==> (r matches Ok(steps) && steps@ == Seq::new(
            (CURRENT_SCHEMA_VERSION - found) as nat,
            |i: int| (found + i) as u32,
        )),
{
    if found > CURRENT_SCHEMA_VERSION {
        return Err(SettingsError::FromTheFuture { found });
    }
    let mut steps: Vec<u32> = Vec::new();
    let mut v = found;
    while v < CURRENT_SCHEMA_VERSION
        invariant
            found <= v <= CURRENT_SCHEMA_VERSION,
            steps@ == Seq::new((v - found) as nat, |i: int| (found + i) as u32),
        decreases CURRENT_SCHEMA_VERSION - v,
    {
        steps.push(v);
        assert(steps@ =~= Seq::new((v + 1 - found) as nat, |i: int| (found + i) as u32));
        v = v + 1;
    }
    Ok(steps)
}

} // verus!
