use vstd::prelude::*;
use crate::views::{ViewConfig, ViewConfigView};

verus! {

/// The row of view tabs above the projects table.
pub struct ViewTabs<'a> {
    views: &'a [ViewConfig],
    active_index: usize,
    loading: bool,
}

/// One tab as it is drawn: its text, and whether it is the active one.
pub struct Tab {
    pub label: String,
    pub active: bool,
}

/// The text of a tab: the key in brackets, then the name, followed by an ellipsis while the
/// active view is loading, with one space of padding on each side.
pub open spec fn tab_label(v: ViewConfigView, active: bool, loading: bool) -> Seq<char> {
    " ["@ + v.key + "] "@ + v.name + (if active && loading { "…"@ } else { ""@ }) + " "@
}

impl<'a> ViewTabs<'a> {
    pub closed spec fn spec_views(&self) -> Seq<ViewConfig> {
        self.views@
    }

    pub closed spec fn spec_active_index(&self) -> usize {
        self.active_index
    }

    pub closed spec fn spec_loading(&self) -> bool {
        self.loading
    }

    pub fn new(views: &'a [ViewConfig], active_index: usize, loading: bool) -> (r: Self)
        ensures
            r.spec_views() == views@,
            r.spec_active_index() == active_index,
            r.spec_loading() == loading,
    {
        ViewTabs { views, active_index, loading }
    }

    /// The tabs from left to right, one per view.
    pub fn tabs(&self) -> (r: Vec<Tab>)
        ensures
            r@.len() == self.spec_views().len(),
            forall|i: int|
                #![trigger r@[i]]
                0 <= i < r@.len() ==> {
                    &&& r@[i].active == (i == self.spec_active_index())
                    &&& r@[i].label@ == tab_label(
                        self.spec_views()[i]@,
                        i == self.spec_active_index(),
                        self.spec_loading(),
                    )
                },
    {
        let mut out: Vec<Tab> = Vec::new();
        let n = self.views.len();
        for i in 0..n
            invariant
                n == self.views@.len(),
                out@.len() == i,
                forall|j: int|
                    #![trigger out@[j]]
                    0 <= j < i ==> {
                        &&& out@[j].active == (j == self.active_index)
                        &&& out@[j].label@ == tab_label(self.views@[j]@, j == self.active_index, self.loading)
                    },
        {
            let view = &self.views[i];
            let active = i == self.active_index;
            let mut label = String::from_str(" [");
            label.append(view.key.as_str());
            label.append("] ");
            label.append(view.name.as_str());
            if active && self.loading {
                label.append("…");
            } else {
                label.append("");
            }
            label.append(" ");
            assert(label@ == tab_label(self.views@[i as int]@, i == self.active_index, self.loading));
            out.push(Tab { label, active });
        }
        out
    }
}

} // verus!
