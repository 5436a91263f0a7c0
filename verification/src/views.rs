use vstd::prelude::*;
use vstd::set_lib::{lemma_int_range, lemma_subset_equality, set_int_range};
use crate::domain::{clone_opt_string, opt_string_view};

verus! {

/// Which projects a view shows: those the user contributes to, or those where the user
/// is asked to approve merge requests.
#[derive(Debug, Clone, Copy, PartialEq, Eq, Structural)]
pub enum InvolvementFilter {
    Contributor,
    Reviewer,
}

/// A tab of the projects list.
pub struct ViewConfig {
    pub name: String,
    pub key: String,
    pub search_filter: Option<String>,
    pub recent_days: Option<u32>,
    pub involvement: Option<InvolvementFilter>,
}

pub struct ViewConfigView {
    pub name: Seq<char>,
    pub key: Seq<char>,
    pub search_filter: Option<Seq<char>>,
    pub recent_days: Option<u32>,
    pub involvement: Option<InvolvementFilter>,
}

impl View for ViewConfig {
    type V = ViewConfigView;

    open spec fn view(&self) -> ViewConfigView {
        ViewConfigView {
            name: self.name@,
            key: self.key@,
            search_filter: opt_string_view(self.search_filter),
            recent_days: self.recent_days,
            involvement: self.involvement,
        }
    }
}

impl Clone for ViewConfig {
    fn clone(&self) -> (r: Self)
        ensures
            r@ == self@,
    {
        ViewConfig {
            name: self.name.clone(),
            key: self.key.clone(),
            search_filter: clone_opt_string(&self.search_filter),
            recent_days: self.recent_days,
            involvement: self.involvement,
        }
    }
}

pub open spec fn view_configs_view(v: Seq<ViewConfig>) -> Seq<ViewConfigView> {
    v.map_values(|c: ViewConfig| c@)
}

/// `a` sorts before `b`: comparing character by character, the first difference decides,
/// and a proper prefix comes first (the order of `String`).
pub open spec fn seq_lt(a: Seq<char>, b: Seq<char>) -> bool
    decreases a.len(),
{
    if b.len() == 0 {
        false
    } else if a.len() == 0 {
        true
    } else if a[0] != b[0] {
        (a[0] as int) < (b[0] as int)
    } else {
        seq_lt(a.drop_first(), b.drop_first())
    }
}

/// No text sorts before itself.
pub proof fn lemma_lt_irreflexive(a: Seq<char>)
    ensures
        !seq_lt(a, a),
    decreases a.len(),
{
    if a.len() > 0 {
        lemma_lt_irreflexive(a.drop_first());
    }
}

/// The order is transitive.
pub proof fn lemma_lt_transitive(a: Seq<char>, b: Seq<char>, c: Seq<char>)
    requires
        seq_lt(a, b),
        seq_lt(b, c),
    ensures
        seq_lt(a, c),
    decreases a.len(),
{
    if a.len() > 0 && b.len() > 0 && c.len() > 0 && a[0] == b[0] && b[0] == c[0] {
        lemma_lt_transitive(a.drop_first(), b.drop_first(), c.drop_first());
    }
}

/// Of two different texts, one sorts before the other.
pub proof fn lemma_lt_total(a: Seq<char>, b: Seq<char>)
    requires
        a != b,
    ensures
        seq_lt(a, b) || seq_lt(b, a),
    decreases a.len(),
{
    if a.len() == 0 && b.len() == 0 {
        assert(a =~= b);
    } else if a.len() > 0 && b.len() > 0 {
        if a[0] == b[0] {
            if a.drop_first() == b.drop_first() {
                assert(a =~= seq![a[0]] + a.drop_first());
                assert(b =~= seq![b[0]] + b.drop_first());
            }
            lemma_lt_total(a.drop_first(), b.drop_first());
        } else {
            let x = a[0];
            let y = b[0];
            assert((x as int) != (y as int));
        }
    }
}

/// The order is asymmetric.
pub proof fn lemma_lt_asymmetric(a: Seq<char>, b: Seq<char>)
    requires
        seq_lt(a, b),
    ensures
        !seq_lt(b, a),
{
    if seq_lt(b, a) {
        lemma_lt_transitive(a, b, a);
        lemma_lt_irreflexive(a);
    }
}

/// Whether `a` sorts before `b`.
pub fn str_lt(a: &str, b: &str) -> (r: bool)
    ensures
        r == seq_lt(a@, b@),
{
    let n = a.unicode_len();
    let m = b.unicode_len();
    let mut i: usize = 0;
    assert(a@.skip(0) =~= a@);
    assert(b@.skip(0) =~= b@);
    while i < n && i < m
        invariant
            n == a@.len(),
            m == b@.len(),
            i <= n,
            i <= m,
            seq_lt(a@, b@) == seq_lt(a@.skip(i as int), b@.skip(i as int)),
        decreases n - i,
    {
        let x = a.get_char(i);
        let y = b.get_char(i);
        if x != y {
            return (x as u32) < (y as u32);
        }
        assert(a@.skip(i as int).drop_first() =~= a@.skip(i + 1));
        assert(b@.skip(i as int).drop_first() =~= b@.skip(i + 1));
        i = i + 1;
    }
    i < m
}

/// View `i` comes before view `j`: its key sorts first, or the keys are equal and it
/// stands earlier.
pub open spec fn key_before(vs: Seq<ViewConfigView>, i: int, j: int) -> bool {
    seq_lt(vs[i].key, vs[j].key) || (vs[i].key == vs[j].key && i < j)
}

/// `ord` lists every position of `vs` once, ordered by key, equal keys in their order.
pub open spec fn is_key_order(vs: Seq<ViewConfigView>, ord: Seq<int>) -> bool {
    &&& ord.len() == vs.len()
    &&& forall|k: int| 0 <= k < ord.len() ==> 0 <= #[trigger] ord[k] < vs.len()
    &&& ord.no_duplicates()
    &&& forall|a: int, b: int| 0 <= a < b < ord.len() ==> key_before(vs, #[trigger] ord[a], #[trigger] ord[b])
}

/// `out` holds the views of `vs` ordered by key, views with equal keys in their order.
pub open spec fn sorted_by_key(vs: Seq<ViewConfigView>, out: Seq<ViewConfigView>) -> bool {
    exists|ord: Seq<int>|
        #[trigger] is_key_order(vs, ord) && out.len() == ord.len() && forall|k: int|
            0 <= k < out.len() ==> out[k] == vs[#[trigger] ord[k]]
}

/// The configured views, named by a unique slug and held in the order of their slugs.
pub struct ViewsFile {
    pub views: Vec<(String, ViewConfig)>,
}

/// The views, without their slugs, in the order they are held.
pub open spec fn file_views(f: Seq<(String, ViewConfig)>) -> Seq<ViewConfigView> {
    f.map_values(|e: (String, ViewConfig)| e.1@)
}

/// The slugs, in the order they are held.
pub open spec fn file_slugs(f: Seq<(String, ViewConfig)>) -> Seq<Seq<char>> {
    f.map_values(|e: (String, ViewConfig)| e.0@)
}

impl ViewsFile {
    /// Each slug occurs once, and the views are held in the order of their slugs.
    pub open spec fn wf(&self) -> bool {
        forall|a: int, b: int|
            0 <= a < b < self.views@.len() ==> seq_lt(
                #[trigger] file_slugs(self.views@)[a],
                #[trigger] file_slugs(self.views@)[b],
            )
    }
}

fn view_config(name: &str, key: &str, recent_days: Option<u32>, involvement: Option<InvolvementFilter>) -> (r: ViewConfig)
    ensures
        r@ == (ViewConfigView { name: name@, key: key@, search_filter: None, recent_days, involvement }),
{
    ViewConfig {
        name: String::from_str(name),
        key: String::from_str(key),
        search_filter: None,
        recent_days,
        involvement,
    }
}

impl Default for ViewsFile {
    /// Three views: "My Work" (key 1, contributions of the last fourteen days),
    /// "Reviewing" (key 2) and "All" (key 3), held by slug as `all`, `mywork`, `reviewing`.
    fn default() -> (r: Self)
        ensures
            r.wf(),
            file_slugs(r.views@) == seq!["all"@, "mywork"@, "reviewing"@],
            file_views(r.views@) == seq![
                ViewConfigView { name: "All"@, key: "3"@, search_filter: None, recent_days: None, involvement: None },
                ViewConfigView {
                    name: "My Work"@,
                    key: "1"@,
                    search_filter: None,
                    recent_days: Some(14u32),
                    involvement: Some(InvolvementFilter::Contributor),
                },
                ViewConfigView {
                    name: "Reviewing"@,
                    key: "2"@,
                    search_filter: None,
                    recent_days: None,
                    involvement: Some(InvolvementFilter::Reviewer),
                },
            ],
    {
        let mut views: Vec<(String, ViewConfig)> = Vec::new();
        views.push((String::from_str("all"), view_config("All", "3", None, None)));
        views.push((String::from_str("mywork"), view_config("My Work", "1", Some(14), Some(InvolvementFilter::Contributor))));
        views.push((String::from_str("reviewing"), view_config("Reviewing", "2", None, Some(InvolvementFilter::Reviewer))));
        let r = ViewsFile { views };
        assert(file_slugs(r.views@) =~= seq!["all"@, "mywork"@, "reviewing"@]);
        proof {
            reveal_strlit("all");
            reveal_strlit("mywork");
            reveal_strlit("reviewing");
            assert(seq_lt("all"@, "mywork"@));
            assert(seq_lt("mywork"@, "reviewing"@));
            assert(seq_lt("all"@, "reviewing"@));
        }
        assert(file_views(r.views@) =~= seq![
            ViewConfigView { name: "All"@, key: "3"@, search_filter: None, recent_days: None, involvement: None },
            ViewConfigView {
                name: "My Work"@,
                key: "1"@,
                search_filter: None,
                recent_days: Some(14u32),
                involvement: Some(InvolvementFilter::Contributor),
            },
            ViewConfigView {
                name: "Reviewing"@,
                key: "2"@,
                search_filter: None,
                recent_days: None,
                involvement: Some(InvolvementFilter::Reviewer),
            },
        ]);
        r
    }
}

impl ViewsFile {
    /// The views ordered by their key, which gives the tab order and the keyboard shortcut;
    /// views with equal keys keep the order of their slugs.
    pub fn sorted_views(&self) -> (r: Vec<ViewConfig>)
        ensures
            sorted_by_key(file_views(self.views@), view_configs_view(r@)),
    {
        let n = self.views.len();
        let ghost vs = file_views(self.views@);
        let mut ord: Vec<usize> = Vec::new();
        for i in 0..n
            invariant
                n == self.views@.len(),
                vs == file_views(self.views@),
                ord@.len() == i,
                forall|k: int| 0 <= k < ord@.len() ==> #[trigger] ord@[k] < i,
                ord@.no_duplicates(),
                forall|a: int, b: int|
                    0 <= a < b < ord@.len() ==> key_before(vs, #[trigger] ord@[a] as int, #[trigger] ord@[b] as int),
        {
            let key_i = self.views[i].1.key.as_str();
            let mut p: usize = 0;
            while p < ord.len()
                invariant
                    n == self.views@.len(),
                    vs == file_views(self.views@),
                    i < n,
                    key_i@ == vs[i as int].key,
                    p <= ord@.len(),
                    forall|k: int| 0 <= k < ord@.len() ==> #[trigger] ord@[k] < i,
                    forall|q: int| 0 <= q < p ==> !seq_lt(vs[i as int].key, #[trigger] vs[ord@[q] as int].key),
                ensures
                    p <= ord@.len(),
                    p < ord@.len() ==> seq_lt(vs[i as int].key, vs[ord@[p as int] as int].key),
                    forall|q: int| 0 <= q < p ==> !seq_lt(vs[i as int].key, #[trigger] vs[ord@[q] as int].key),
                decreases ord@.len() - p,
            {
                if str_lt(key_i, self.views[ord[p]].1.key.as_str()) {
                    break;
                }
                p = p + 1;
            }
            let ghost old_ord = ord@;
            proof {
                // everything after the insertion point has a key after key_i
                assert forall|q: int| p <= q < old_ord.len() implies seq_lt(
                    vs[i as int].key,
                    #[trigger] vs[old_ord[q] as int].key,
                ) by {
                    if q > p {
                        assert(key_before(vs, old_ord[p as int] as int, old_ord[q] as int));
                        if seq_lt(vs[old_ord[p as int] as int].key, vs[old_ord[q] as int].key) {
                            lemma_lt_transitive(vs[i as int].key, vs[old_ord[p as int] as int].key, vs[old_ord[q] as int].key);
                        }
                    }
                }
            }
            ord.insert(p, i);
            proof {
                assert(ord@ == old_ord.insert(p as int, i));
                assert forall|k: int| 0 <= k < ord@.len() implies #[trigger] ord@[k] < i + 1 by {
                    if k < p {
                        assert(ord@[k] == old_ord[k]);
                    } else if k > p {
                        assert(ord@[k] == old_ord[k - 1]);
                    }
                }
                assert forall|a: int, b: int| 0 <= a < ord@.len() && 0 <= b < ord@.len() && a != b implies ord@[a] != ord@[b] by {
                    if a != p && b != p {
                        let a0 = if a < p { a } else { a - 1 };
                        let b0 = if b < p { b } else { b - 1 };
                        assert(ord@[a] == old_ord[a0]);
                        assert(ord@[b] == old_ord[b0]);
                    } else if a == p {
                        let b0 = if b < p { b } else { b - 1 };
                        assert(ord@[b] == old_ord[b0]);
                    } else {
                        let a0 = if a < p { a } else { a - 1 };
                        assert(ord@[a] == old_ord[a0]);
                    }
                }
                assert forall|a: int, b: int|
                    0 <= a < b < ord@.len() implies key_before(vs, #[trigger] ord@[a] as int, #[trigger] ord@[b] as int) by {
                    if b < p {
                        assert(ord@[a] == old_ord[a]);
                        assert(ord@[b] == old_ord[b]);
                    } else if b == p {
                        assert(ord@[a] == old_ord[a]);
                        assert(!seq_lt(vs[i as int].key, vs[old_ord[a] as int].key));
                        if vs[old_ord[a] as int].key != vs[i as int].key {
                            lemma_lt_total(vs[old_ord[a] as int].key, vs[i as int].key);
                        }
                    } else if a == p {
                        assert(ord@[b] == old_ord[b - 1]);
                        assert(seq_lt(vs[i as int].key, vs[old_ord[b - 1] as int].key));
                    } else if a < p {
                        assert(ord@[a] == old_ord[a]);
                        assert(ord@[b] == old_ord[b - 1]);
                    } else {
                        assert(ord@[a] == old_ord[a - 1]);
                        assert(ord@[b] == old_ord[b - 1]);
                    }
                }
            }
        }
        let mut out: Vec<ViewConfig> = Vec::new();
        for k in 0..n
            invariant
                n == self.views@.len(),
                vs == file_views(self.views@),
                ord@.len() == n,
                forall|j: int| 0 <= j < ord@.len() ==> #[trigger] ord@[j] < n,
                out@.len() == k,
                forall|j: int| 0 <= j < k ==> #[trigger] out@[j]@ == vs[ord@[j] as int],
        {
            let c = self.views[ord[k]].1.clone();
            out.push(c);
        }
        proof {
            let o = ord@.map_values(|x: usize| x as int);
            assert(is_key_order(vs, o)) by {
                assert forall|a: int, b: int| 0 <= a < o.len() && 0 <= b < o.len() && a != b implies o[a] != o[b] by {
                    assert(ord@[a] != ord@[b]);
                }
                assert forall|a: int, b: int| 0 <= a < b < o.len() implies key_before(vs, #[trigger] o[a], #[trigger] o[b]) by {
                    assert(key_before(vs, ord@[a] as int, ord@[b] as int));
                }
            }
            let ov = view_configs_view(out@);
            assert forall|k: int| 0 <= k < ov.len() implies ov[k] == vs[#[trigger] o[k]] by {
                assert(out@[k]@ == vs[ord@[k] as int]);
            }
        }
        out
    }
}

/// `v` is one of the views in `out`.
pub open spec fn listed(out: Seq<ViewConfigView>, v: ViewConfigView) -> bool {
    exists|k: int| 0 <= k < out.len() && out[k] == v
}

/// Sorting the views keeps every view once and puts them in key order: the result has as
/// many views as the file, each view of the file is in it, and no key sorts before the key
/// of a view ahead of it.
pub proof fn law_sorted_views_permute_in_key_order(vs: Seq<ViewConfigView>, out: Seq<ViewConfigView>)
    requires
        sorted_by_key(vs, out),
    ensures
        out.len() == vs.len(),
        forall|i: int| 0 <= i < vs.len() ==> #[trigger] listed(out, vs[i]),
        forall|a: int, b: int| 0 <= a < b < out.len() ==> !seq_lt(#[trigger] out[b].key, #[trigger] out[a].key),
{
    let ord = choose|ord: Seq<int>|
        #[trigger] is_key_order(vs, ord) && out.len() == ord.len() && forall|k: int|
            0 <= k < out.len() ==> out[k] == vs[#[trigger] ord[k]];
    let n = vs.len() as int;
    assert forall|i: int| 0 <= i < vs.len() implies #[trigger] listed(out, vs[i]) by {
        ord.unique_seq_to_set();
        lemma_int_range(0, n);
        assert(ord.to_set().subset_of(set_int_range(0, n))) by {
            assert forall|x: int| ord.to_set().contains(x) implies set_int_range(0, n).contains(x) by {
                let k = choose|k: int| 0 <= k < ord.len() && ord[k] == x;
                assert(0 <= ord[k] < n);
            }
        }
        vstd::set_lib::lemma_len_subset(ord.to_set(), set_int_range(0, n));
        lemma_subset_equality(ord.to_set(), set_int_range(0, n));
        assert(set_int_range(0, n).contains(i));
        assert(ord.to_set().contains(i));
        let k = choose|k: int| 0 <= k < ord.len() && ord[k] == i;
        assert(out[k] == vs[ord[k]]);
    }
    assert forall|a: int, b: int| 0 <= a < b < out.len() implies !seq_lt(#[trigger] out[b].key, #[trigger] out[a].key) by {
        assert(key_before(vs, ord[a], ord[b]));
        assert(out[a] == vs[ord[a]]);
        assert(out[b] == vs[ord[b]]);
        if seq_lt(vs[ord[a]].key, vs[ord[b]].key) {
            lemma_lt_asymmetric(vs[ord[a]].key, vs[ord[b]].key);
        } else {
            lemma_lt_irreflexive(vs[ord[a]].key);
        }
    }
}

} // verus!
