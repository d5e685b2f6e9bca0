//! The known-parameter store: realistic values for parameters that cannot
//! be synthesized, keyed by the path patterns they apply under.
use vstd::prelude::*;
use rand::Rng;
use crate::text::{make_placeholder, occurs_in, placeholder, replace_all, same_text, str_contains, str_replace};

verus! {

/// The literal values configured for one parameter name.
#[derive(Debug)]
pub struct KnownValues {
    pub name: String,
    pub values: Vec<String>,
}

/// The parameters configured under one path pattern.
#[derive(Debug)]
pub struct ConversionEntry {
    pub path: String,
    pub params: Vec<KnownValues>,
}

/// The whole conversions table, loaded once and read-only afterwards.
#[derive(Debug)]
pub struct Conversions {
    pub paths: Vec<ConversionEntry>,
}

/// The entries of the table that apply to one endpoint.
#[derive(Debug)]
pub struct ConversionView {
    pub paths: Vec<ConversionEntry>,
}

/// A parameter name and its values, as texts.
pub type KnownView = (Seq<char>, Seq<Seq<char>>);

/// A path pattern and its parameters, as texts.
pub type EntryView = (Seq<char>, Seq<KnownView>);

impl DeepView for KnownValues {
    type V = KnownView;

    open spec fn deep_view(&self) -> KnownView {
        (self.name@, self.values.deep_view())
    }
}

impl DeepView for ConversionEntry {
    type V = EntryView;

    open spec fn deep_view(&self) -> EntryView {
        (self.path@, self.params.deep_view())
    }
}

/// Every parameter of every entry offers at least one value.
pub open spec fn entries_wf(es: Seq<EntryView>) -> bool {
    forall|i: int, j: int| 0 <= i < es.len() && 0 <= j < es[i].1.len()
        ==> (#[trigger] es[i].1[j]).1.len() > 0
}

/// `a` comes strictly before `b` in the order of their characters.
pub open spec fn text_less(a: Seq<char>, b: Seq<char>) -> bool
    decreases a.len(),
{
    if a.len() == 0 {
        b.len() > 0
    } else if b.len() == 0 {
        false
    } else if a[0] != b[0] {
        (a[0] as u32) < (b[0] as u32)
    } else {
        text_less(a.drop_first(), b.drop_first())
    }
}

/// The patterns are unique and in increasing order.
pub open spec fn patterns_ordered(es: Seq<EntryView>) -> bool {
    forall|i: int, j: int| 0 <= i < j < es.len() ==> text_less(#[trigger] es[i].0, #[trigger] es[j].0)
}

/// No entry names a parameter twice.
pub open spec fn names_unique(es: Seq<EntryView>) -> bool {
    forall|i: int, j: int, k: int| 0 <= i < es.len() && 0 <= j < k < es[i].1.len()
        ==> #[trigger] es[i].1[j].0 != #[trigger] es[i].1[k].0
}

/// The entry is the default one, kept under the root pattern `/`.
pub open spec fn is_default(e: EntryView) -> bool {
    e.0 == "/"@
}

/// The entry applies to endpoints whose path template holds its pattern.
pub open spec fn applies_to(e: EntryView, pattern: Seq<char>) -> bool {
    occurs_in(pattern, e.0)
}

/// The index of the first parameter of the entry with the given name.
pub open spec fn param_index(ps: Seq<KnownView>, name: Seq<char>) -> Option<int>
    decreases ps.len(),
{
    if ps.len() == 0 {
        None
    } else {
        match param_index(ps.drop_last(), name) {
            Some(i) => Some(i),
            None => if ps.last().0 == name { Some(ps.len() - 1) } else { None },
        }
    }
}

/// The entry defines the parameter `name`.
pub open spec fn defines(e: EntryView, name: Seq<char>) -> bool {
    param_index(e.1, name) is Some
}

/// The values the entry offers for `name`.
pub open spec fn values_for(e: EntryView, name: Seq<char>) -> Seq<Seq<char>> {
    e.1[param_index(e.1, name)->0].1
}

/// Among the first `n` entries, the last one that defines `name` and is
/// (or is not) the default entry.
pub open spec fn last_defining(es: Seq<EntryView>, name: Seq<char>, default: bool, n: int) -> Option<int>
    decreases n,
{
    if n <= 0 {
        None
    } else if defines(es[n - 1], name) && is_default(es[n - 1]) == default {
        Some(n - 1)
    } else {
        last_defining(es, name, default, n - 1)
    }
}

/// The entry whose values answer for `name`: a specific entry before the
/// default one, and among specific entries the last.
pub open spec fn chosen_entry(es: Seq<EntryView>, name: Seq<char>) -> Option<int> {
    match last_defining(es, name, false, es.len() as int) {
        Some(i) => Some(i),
        None => last_defining(es, name, true, es.len() as int),
    }
}

/// Relies on `rand::Rng::gen_range` on `rand::thread_rng()`: a uniformly
/// drawn index below `n`; the range must not be empty.
#[verifier::external_body]
fn random_index(n: usize) -> (r: usize)
    requires
        n > 0,
    ensures
        r < n,
{
    rand::thread_rng().gen_range(0..n)
}

proof fn lemma_deep_view_push<T: DeepView>(a: Vec<T>, b: Vec<T>, x: T)
    requires
        b@ == a@.push(x),
    ensures
        b.deep_view() == a.deep_view().push(x.deep_view()),
{
    assert(b.deep_view() =~= a.deep_view().push(x.deep_view()));
}

impl KnownValues {
    /// A copy of the configured values.
    pub fn duplicate(&self) -> (r: Self)
        ensures
            r.deep_view() == self.deep_view(),
    {
        let mut values: Vec<String> = Vec::new();
        let mut i: usize = 0;
        while i < self.values.len()
            invariant
                i <= self.values.len(),
                values.deep_view() == self.values.deep_view().subrange(0, i as int),
            decreases self.values.len() - i,
        {
            let ghost before = values;
            values.push(self.values[i].clone());
            proof {
                lemma_deep_view_push(before, values, self.values@[i as int]);
                assert(values.deep_view() =~= self.values.deep_view().subrange(0, i + 1));
            }
            i = i + 1;
        }
        proof {
            assert(values.deep_view() =~= self.values.deep_view());
        }
        KnownValues { name: self.name.clone(), values }
    }
}

impl ConversionEntry {
    /// A copy of the entry.
    pub fn duplicate(&self) -> (r: Self)
        ensures
            r.deep_view() == self.deep_view(),
    {
        let mut params: Vec<KnownValues> = Vec::new();
        let mut i: usize = 0;
        while i < self.params.len()
            invariant
                i <= self.params.len(),
                params.deep_view() == self.params.deep_view().subrange(0, i as int),
            decreases self.params.len() - i,
        {
            let ghost before = params;
            let p = self.params[i].duplicate();
            params.push(p);
            proof {
                lemma_deep_view_push(before, params, p);
                assert(params.deep_view() =~= self.params.deep_view().subrange(0, i + 1));
            }
            i = i + 1;
        }
        proof {
            assert(params.deep_view() =~= self.params.deep_view());
        }
        ConversionEntry { path: self.path.clone(), params }
    }

    /// Where the entry defines `name`, the position of its values.
    pub fn find(&self, name: &str) -> (r: Option<usize>)
        ensures
            r matches Some(i) ==> param_index(self.deep_view().1, name@) == Some(i as int)
                && i < self.params@.len(),
            r is None ==> param_index(self.deep_view().1, name@) is None,
    {
        let ghost ps = self.params.deep_view();
        let mut i: usize = 0;
        while i < self.params.len()
            invariant
                i <= self.params.len(),
                ps == self.params.deep_view(),
                param_index(ps.subrange(0, i as int), name@) is None,
            decreases self.params.len() - i,
        {
            proof {
                assert(ps.subrange(0, i + 1).drop_last() =~= ps.subrange(0, i as int));
            }
            if same_text(self.params[i].name.as_str(), name) {
                proof {
                    lemma_param_index_prefix(ps, name@, i + 1);
                }
                return Some(i);
            }
            i = i + 1;
        }
        proof {
            assert(ps.subrange(0, ps.len() as int) =~= ps);
        }
        None
    }
}

/// The first match in a prefix is the first match of the whole list.
proof fn lemma_param_index_prefix(ps: Seq<KnownView>, name: Seq<char>, n: int)
    requires
        0 <= n <= ps.len(),
        param_index(ps.subrange(0, n), name) is Some,
    ensures
        param_index(ps, name) == param_index(ps.subrange(0, n), name),
    decreases ps.len() - n,
{
    if n < ps.len() {
        assert(ps.subrange(0, n + 1).drop_last() =~= ps.subrange(0, n));
        lemma_param_index_prefix(ps, name, n + 1);
    } else {
        assert(ps.subrange(0, n) =~= ps);
    }
}

impl View for Conversions {
    type V = Seq<EntryView>;

    open spec fn view(&self) -> Seq<EntryView> {
        self.paths.deep_view()
    }
}

impl View for ConversionView {
    type V = Seq<EntryView>;

    open spec fn view(&self) -> Seq<EntryView> {
        self.paths.deep_view()
    }
}

impl Conversions {
    /// A table with no entries, for runs without a conversions file.
    pub fn empty() -> (r: Self)
        ensures
            r@.len() == 0,
            r.wf(),
    {
        let r = Conversions { paths: Vec::new() };
        proof {
            assert(r@ =~= Seq::empty());
        }
        r
    }

    /// The table of the given entries.
    pub fn new(paths: Vec<ConversionEntry>) -> (r: Self)
        requires
            entries_wf(paths.deep_view()),
            patterns_ordered(paths.deep_view()),
            names_unique(paths.deep_view()),
        ensures
            r.paths == paths,
            r.wf(),
    {
        Conversions { paths }
    }

    /// Every configured parameter offers a value.
    /// Every configured parameter offers a value; the patterns are unique
    /// and in increasing order, and each entry names a parameter once, as
    /// a map keyed by pattern and then by name holds them.
    pub open spec fn wf(&self) -> bool {
        &&& entries_wf(self@)
        &&& patterns_ordered(self@)
        &&& names_unique(self@)
    }

    /// The entries whose pattern occurs in the endpoint's path template:
    /// an ancestor's entry applies to every endpoint nested under it.
    pub fn for_path(&self, pattern: &str) -> (r: ConversionView)
        ensures
            r@ == self@.filter(|e: EntryView| applies_to(e, pattern@)),
            self.wf() ==> r.wf(),
    {
        let mut result: Vec<ConversionEntry> = Vec::new();
        let ghost pred = |e: EntryView| applies_to(e, pattern@);
        let mut i: usize = 0;
        while i < self.paths.len()
            invariant
                i <= self.paths.len(),
                pred == (|e: EntryView| applies_to(e, pattern@)),
                result.deep_view() == self@.subrange(0, i as int).filter(pred),
            decreases self.paths.len() - i,
        {
            let ghost s1 = self@.subrange(0, i + 1);
            let ghost before = result.deep_view();
            proof {
                reveal(Seq::filter);
                assert(s1.drop_last() =~= self@.subrange(0, i as int));
                assert(s1.last() == self@[i as int]);
            }
            if str_contains(pattern, self.paths[i].path.as_str()) {
                result.push(self.paths[i].duplicate());
                proof {
                    assert(result.deep_view() =~= before.push(self@[i as int]));
                }
            }
            assert(result.deep_view() == s1.filter(pred));
            i = i + 1;
        }
        proof {
            assert(self@.subrange(0, self.paths.len() as int) =~= self@);
            if self.wf() {
                let rv = result.deep_view();
                assert forall|i: int, j: int| 0 <= i < rv.len() && 0 <= j < rv[i].1.len()
                    implies (#[trigger] rv[i].1[j]).1.len() > 0 by {
                    assert(rv.contains(rv[i]));
                    self@.lemma_filter_contains_rev(pred, rv[i]);
                    let k = choose|k: int| 0 <= k < self@.len() && self@[k] == rv[i];
                    assert(self@[k].1[j].1.len() > 0);
                }
            }
        }
        ConversionView { paths: result }
    }
}

} // verus!

verus! {

/// The pattern with every placeholder of the first `k` parameters replaced
/// by the picked value, one parameter after another on the same text.
pub open spec fn substitute(s: Seq<char>, ps: Seq<KnownView>, picks: Seq<int>, k: int) -> Seq<char>
    decreases k,
{
    if k <= 0 {
        s
    } else {
        replace_all(
            substitute(s, ps, picks, k - 1),
            placeholder(ps[k - 1].0),
            ps[k - 1].1[picks[k - 1]],
        )
    }
}

/// Picks are valid: one index per parameter of each entry, each within its values.
pub open spec fn valid_picks(es: Seq<EntryView>, picks: Seq<Seq<int>>) -> bool {
    &&& picks.len() == es.len()
    &&& forall|i: int| 0 <= i < es.len() ==> (#[trigger] picks[i]).len() == es[i].1.len()
    &&& forall|i: int, j: int| 0 <= i < es.len() && 0 <= j < es[i].1.len()
        ==> 0 <= #[trigger] picks[i][j] < es[i].1[j].1.len()
}

/// The template as the entry resolves it with the given picks.
pub open spec fn resolve_with(e: EntryView, pattern: Seq<char>, picks: Seq<int>) -> Seq<char> {
    substitute(pattern, e.1, picks, e.1.len() as int)
}

/// Among the first `n` entries: the first specific resolution without any
/// placeholder left, and the last such default resolution.
pub open spec fn resolutions(es: Seq<EntryView>, pattern: Seq<char>, picks: Seq<Seq<int>>, n: int)
    -> (Option<Seq<char>>, Option<Seq<char>>)
    decreases n,
{
    if n <= 0 {
        (None, None)
    } else {
        let (specific, default) = resolutions(es, pattern, picks, n - 1);
        let res = resolve_with(es[n - 1], pattern, picks[n - 1]);
        if occurs_in(res, seq!['{']) {
            (specific, default)
        } else if is_default(es[n - 1]) {
            (specific, Some(res))
        } else if specific is None {
            (Some(res), default)
        } else {
            (specific, default)
        }
    }
}

/// The resolved path: a specific resolution before a default one.
pub open spec fn known_path(es: Seq<EntryView>, pattern: Seq<char>, picks: Seq<Seq<int>>) -> Option<Seq<char>> {
    let (specific, default) = resolutions(es, pattern, picks, es.len() as int);
    if specific is Some { specific } else { default }
}

impl ConversionView {
    /// Every configured parameter offers a value.
    pub open spec fn wf(&self) -> bool {
        entries_wf(self@)
    }

    /// The entries that define `name`, in order.
    pub fn matches(&self, name: &str) -> (r: Vec<usize>)
        ensures
            forall|k: int| 0 <= k < r@.len() ==> (#[trigger] r@[k] as int) < self@.len()
                && defines(self@[r@[k] as int], name@),
            forall|i: int| 0 <= i < self@.len() && defines(self@[i], name@)
                ==> r@.contains(i as usize),
            forall|a: int, b: int| 0 <= a < b < r@.len() ==> r@[a] < r@[b],
    {
        let mut r: Vec<usize> = Vec::new();
        let mut i: usize = 0;
        while i < self.paths.len()
            invariant
                i <= self.paths.len(),
                forall|k: int| 0 <= k < r@.len() ==> (#[trigger] r@[k] as int) < self@.len()
                    && defines(self@[r@[k] as int], name@),
                forall|j: int| 0 <= j < i && defines(self@[j], name@) ==> r@.contains(j as usize),
                forall|k: int| 0 <= k < r@.len() ==> (#[trigger] r@[k]) < i,
                forall|a: int, b: int| 0 <= a < b < r@.len() ==> r@[a] < r@[b],
            decreases self.paths.len() - i,
        {
            let ghost before = r@;
            if self.paths[i].find(name).is_some() {
                r.push(i);
                proof {
                    assert(r@[r@.len() - 1] == i);
                    assert forall|j: int| 0 <= j < i && defines(self@[j], name@) implies r@.contains(j as usize) by {
                        let k = choose|k: int| 0 <= k < before.len() && before[k] == j as usize;
                        assert(r@[k] == before[k]);
                    }
                }
            }
            i = i + 1;
        }
        r
    }

    /// A value for the parameter `name`: drawn at random from the values of
    /// the chosen entry, a specific entry before the default one; `None`
    /// where no entry defines it.
    pub fn param_value(&self, name: &str) -> (r: Option<String>)
        requires
            self.wf(),
        ensures
            chosen_entry(self@, name@) is None <==> r is None,
            r matches Some(v) ==> values_for(self@[chosen_entry(self@, name@)->0], name@).contains(v@),
    {
        let mut the_default: Option<usize> = None;
        let mut not_default: Option<usize> = None;
        let mut i: usize = 0;
        proof { reveal_strlit("/"); }
        while i < self.paths.len()
            invariant
                i <= self.paths.len(),
                as_index(the_default) == last_defining(self@, name@, true, i as int),
                as_index(not_default) == last_defining(self@, name@, false, i as int),
            decreases self.paths.len() - i,
        {
            if self.paths[i].find(name).is_some() {
                if same_text(self.paths[i].path.as_str(), "/") {
                    the_default = Some(i);
                } else {
                    not_default = Some(i);
                }
            }
            i = i + 1;
        }
        proof {
            lemma_last_defining_bounds(self@, name@, true, self@.len() as int);
            lemma_last_defining_bounds(self@, name@, false, self@.len() as int);
        }
        let chosen = match not_default {
            Some(k) => Some(k),
            None => the_default,
        };
        match chosen {
            None => None,
            Some(k) => {
                let entry = &self.paths[k];
                assert(entry.deep_view() == self@[k as int]);
                let j = entry.find(name).unwrap();
                let values = &entry.params[j].values;
                proof {
                    assert(entry.params.deep_view()[j as int] == entry.params@[j as int].deep_view());
                    assert(values.deep_view().len() > 0);
                }
                let pick = random_index(values.len());
                let v = values[pick].clone();
                proof {
                    assert(values.deep_view()[pick as int] == v@);
                    assert(values_for(self@[k as int], name@) == values.deep_view());
                }
                Some(v)
            },
        }
    }
}

/// An index, seen as an integer.
pub open spec fn as_index(o: Option<usize>) -> Option<int> {
    match o {
        Some(k) => Some(k as int),
        None => None,
    }
}

proof fn lemma_last_defining_bounds(es: Seq<EntryView>, name: Seq<char>, d: bool, n: int)
    ensures
        last_defining(es, name, d, n) matches Some(k) ==> 0 <= k < n && defines(es[k], name),
    decreases n,
{
    if n > 0 {
        lemma_last_defining_bounds(es, name, d, n - 1);
    }
}

} // verus!

verus! {

proof fn lemma_substitute_agree(s: Seq<char>, ps: Seq<KnownView>, a: Seq<int>, b: Seq<int>, k: int)
    requires
        k <= a.len(),
        k <= b.len(),
        forall|i: int| 0 <= i < k ==> a[i] == b[i],
    ensures
        substitute(s, ps, a, k) == substitute(s, ps, b, k),
    decreases k,
{
    if k > 0 {
        lemma_substitute_agree(s, ps, a, b, k - 1);
    }
}

proof fn lemma_resolutions_agree(es: Seq<EntryView>, pattern: Seq<char>, a: Seq<Seq<int>>, b: Seq<Seq<int>>, n: int)
    requires
        n <= a.len(),
        n <= b.len(),
        forall|i: int| 0 <= i < n ==> a[i] == b[i],
    ensures
        resolutions(es, pattern, a, n) == resolutions(es, pattern, b, n),
    decreases n,
{
    if n > 0 {
        lemma_resolutions_agree(es, pattern, a, b, n - 1);
    }
}

impl ConversionView {
    /// The path template with its placeholders filled from the entries: each
    /// entry substitutes every placeholder it defines, one after another on
    /// the same text, with values drawn at random. The first specific entry
    /// that leaves no placeholder wins over the default entry.
    pub fn retrieve_known_path(&self, pattern: &str) -> (r: Option<String>)
        requires
            self.wf(),
        ensures
            exists|picks: Seq<Seq<int>>| valid_picks(self@, picks)
                && #[trigger] known_path(self@, pattern@, picks) == crate::request_param::opt_view(r),
    {
        let mut r_default: Option<String> = None;
        let mut r_specific: Option<String> = None;
        let ghost mut picks: Seq<Seq<int>> = Seq::empty();
        proof { reveal_strlit("{"); reveal_strlit("/"); }
        let mut i: usize = 0;
        while i < self.paths.len()
            invariant
                i <= self.paths.len(),
                self.wf(),
                picks.len() == i,
                forall|a: int| 0 <= a < i ==> (#[trigger] picks[a]).len() == self@[a].1.len(),
                forall|a: int, b: int| 0 <= a < i && 0 <= b < self@[a].1.len()
                    ==> 0 <= #[trigger] picks[a][b] < self@[a].1[b].1.len(),
                resolutions(self@, pattern@, picks, i as int)
                    == (crate::request_param::opt_view(r_specific), crate::request_param::opt_view(r_default)),
            decreases self.paths.len() - i,
        {
            let entry = &self.paths[i];
            let ghost ev = self@[i as int];
            assert(entry.deep_view() == ev);
            let mut result = String::from_str(pattern);
            let ghost mut row: Seq<int> = Seq::empty();
            let mut j: usize = 0;
            while j < entry.params.len()
                invariant
                    j <= entry.params.len(),
                    entry.deep_view() == ev,
                    ev == self@[i as int],
                    self.wf(),
                    i < self@.len(),
                    row.len() == j,
                    forall|b: int| 0 <= b < j ==> 0 <= #[trigger] row[b] < ev.1[b].1.len(),
                    result@ == substitute(pattern@, ev.1, row, j as int),
                decreases entry.params.len() - j,
            {
                let kv = &entry.params[j];
                proof {
                    assert(entry.params.deep_view()[j as int] == kv.deep_view());
                    assert(ev.1[j as int].1.len() > 0);
                }
                let pick = random_index(kv.values.len());
                let ph = make_placeholder(kv.name.as_str());
                let value = &kv.values[pick];
                proof {
                    assert(kv.values.deep_view()[pick as int] == value@);
                }
                let next = str_replace(result.as_str(), ph.as_str(), value.as_str());
                proof {
                    let row2 = row.push(pick as int);
                    lemma_substitute_agree(pattern@, ev.1, row, row2, j as int);
                    row = row2;
                }
                result = next;
                j = j + 1;
            }
            let ghost picks2 = picks.push(row);
            proof {
                lemma_resolutions_agree(self@, pattern@, picks, picks2, i as int);
                assert(picks2[i as int] == row);
                assert(result@ == resolve_with(self@[i as int], pattern@, picks2[i as int]));
                reveal_strlit("{");
                reveal_strlit("/");
                assert("{"@ =~= seq!['{']);
                assert("/"@ =~= seq!['/']);
                assert(is_default(self@[i as int]) == (entry.path@ == "/"@));
            }
            if !str_contains(result.as_str(), "{") {
                if same_text(entry.path.as_str(), "/") {
                    r_default = Some(result);
                } else if r_specific.is_none() {
                    r_specific = Some(result);
                }
            }
            proof {
                assert(resolutions(self@, pattern@, picks2, i + 1)
                    == (crate::request_param::opt_view(r_specific), crate::request_param::opt_view(r_default)));
                picks = picks2;
            }
            i = i + 1;
        }
        let r = match r_specific {
            Some(s) => Some(s),
            None => r_default,
        };
        proof {
            assert(valid_picks(self@, picks));
            assert(known_path(self@, pattern@, picks) == crate::request_param::opt_view(r));
        }
        r
    }
}

} // verus!

verus! {

/// The first value of every parameter of every entry.
pub open spec fn first_picks(es: Seq<EntryView>) -> Seq<Seq<int>> {
    Seq::new(es.len(), |i: int| Seq::new(es[i].1.len(), |j: int| 0int))
}

/// Picking the first value everywhere is a valid pick.
pub proof fn lemma_first_picks(es: Seq<EntryView>)
    requires
        entries_wf(es),
    ensures
        valid_picks(es, first_picks(es)),
{
}

} // verus!
