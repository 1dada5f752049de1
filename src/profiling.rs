//! Spans recorded by the profiler: their categories and the bounded buffer
//! that keeps the most recent ones.

use vstd::prelude::*;
use crate::text::{contains, has_infix, has_prefix, lower_of, starts_with, to_lowercase};

verus! {

/// Identifier of a span.
pub type SpanId = u64;

/// Category of a span, for grouping.
#[derive(Clone, Copy, Debug, PartialEq, Eq, Hash, Structural)]
pub enum SpanCategory {
    TauriCommand,
    FileIo,
    GitOperation,
    LspRequest,
    Search,
    Workspace,
    /// Component renders reported by the frontend.
    FrontendRender,
    /// User interactions reported by the frontend.
    FrontendInteraction,
    /// Network calls reported by the frontend.
    FrontendNetwork,
    /// Any other backend operation.
    BackendOperation,
    Other,
}

/// The category an explicit `category` field names.
pub open spec fn category_named(v: Seq<char>) -> SpanCategory {
    if v == "git"@ {
        SpanCategory::GitOperation
    } else if v == "lsp"@ {
        SpanCategory::LspRequest
    } else if v == "search"@ {
        SpanCategory::Search
    } else if v == "workspace"@ {
        SpanCategory::Workspace
    } else if v == "file_io"@ {
        SpanCategory::FileIo
    } else if v == "frontend_render"@ {
        SpanCategory::FrontendRender
    } else if v == "frontend_interaction"@ {
        SpanCategory::FrontendInteraction
    } else if v == "frontend_network"@ {
        SpanCategory::FrontendNetwork
    } else if v == "tauri_command"@ {
        SpanCategory::TauriCommand
    } else {
        SpanCategory::Other
    }
}

/// The value of the first field whose key is `category`.
pub open spec fn category_field(fields: Seq<(String, String)>, from: int) -> Option<Seq<char>>
    decreases fields.len() - from,
{
    if from < 0 || from >= fields.len() {
        None
    } else if fields[from].0@ == "category"@ {
        Some(fields[from].1@)
    } else {
        category_field(fields, from + 1)
    }
}

/// The category told by a span's lowercased name and target.
pub open spec fn inferred_category(name: Seq<char>, target: Seq<char>, is_frontend: bool) -> SpanCategory {
    if has_infix(name, "git"@) || has_infix(target, "git"@) {
        SpanCategory::GitOperation
    } else if has_infix(name, "lsp"@) || has_infix(target, "lsp"@) {
        SpanCategory::LspRequest
    } else if has_infix(name, "search"@) {
        SpanCategory::Search
    } else if has_infix(name, "directory"@) || has_infix(name, "file"@) {
        SpanCategory::FileIo
    } else if has_infix(target, "tauri"@) || has_prefix(name, "command"@) {
        SpanCategory::TauriCommand
    } else if !is_frontend {
        SpanCategory::BackendOperation
    } else {
        SpanCategory::Other
    }
}

/// The category of a span: the one its `category` field names, if it has
/// one, else the one its lowercased name and target tell.
pub open spec fn span_category(name: Seq<char>, target: Seq<char>, fields: Seq<(String, String)>) -> SpanCategory {
    match category_field(fields, 0) {
        Some(v) => category_named(v),
        None => inferred_category(lower_of(name), lower_of(target), target == "frontend"@),
    }
}

fn named_category(v: &String) -> (r: SpanCategory)
    ensures
        r == category_named(v@),
{
    if *v == String::from_str("git") {
        SpanCategory::GitOperation
    } else if *v == String::from_str("lsp") {
        SpanCategory::LspRequest
    } else if *v == String::from_str("search") {
        SpanCategory::Search
    } else if *v == String::from_str("workspace") {
        SpanCategory::Workspace
    } else if *v == String::from_str("file_io") {
        SpanCategory::FileIo
    } else if *v == String::from_str("frontend_render") {
        SpanCategory::FrontendRender
    } else if *v == String::from_str("frontend_interaction") {
        SpanCategory::FrontendInteraction
    } else if *v == String::from_str("frontend_network") {
        SpanCategory::FrontendNetwork
    } else if *v == String::from_str("tauri_command") {
        SpanCategory::TauriCommand
    } else {
        SpanCategory::Other
    }
}

/// The category told by a span's already lowercased name and target, and
/// whether the span came from the frontend.
pub fn category_from_lowered(name_lower: &str, target_lower: &str, is_frontend: bool) -> (r: SpanCategory)
    ensures
        r == inferred_category(name_lower@, target_lower@, is_frontend),
{
    if contains(name_lower, "git") || contains(target_lower, "git") {
        SpanCategory::GitOperation
    } else if contains(name_lower, "lsp") || contains(target_lower, "lsp") {
        SpanCategory::LspRequest
    } else if contains(name_lower, "search") {
        SpanCategory::Search
    } else if contains(name_lower, "directory") || contains(name_lower, "file") {
        SpanCategory::FileIo
    } else if contains(target_lower, "tauri") || starts_with(name_lower, "command") {
        SpanCategory::TauriCommand
    } else if !is_frontend {
        SpanCategory::BackendOperation
    } else {
        SpanCategory::Other
    }
}

impl SpanCategory {
    /// Infers the category of a span from its fields, name and target.
    pub fn from_span(name: &str, target: &str, fields: &[(String, String)]) -> (r: SpanCategory)
        ensures
            r == span_category(name@, target@, fields@),
    {
        let key = String::from_str("category");
        let mut i: usize = 0;
        while i < fields.len()
            invariant
                i <= fields@.len(),
                key@ == "category"@,
                category_field(fields@, 0) == category_field(fields@, i as int),
            decreases fields.len() - i,
        {
            if fields[i].0 == key {
                return named_category(&fields[i].1);
            }
            i = i + 1;
        }
        let name_lower = to_lowercase(name);
        let target_lower = to_lowercase(target);
        let frontend = String::from_str("frontend");
        let is_frontend = String::from_str(target) == frontend;
        category_from_lowered(name_lower.as_str(), target_lower.as_str(), is_frontend)
    }
}

/// A finished span. Times are nanoseconds on a monotonic clock.
pub struct CompletedSpan {
    pub id: SpanId,
    pub parent_id: Option<SpanId>,
    /// Usually the function name.
    pub name: String,
    /// Usually the module path.
    pub target: String,
    pub category: SpanCategory,
    pub start_time: u64,
    pub end_time: u64,
    pub duration_ns: u64,
    /// Captured field values.
    pub fields: Vec<(String, String)>,
}

/// The most recent spans, oldest first, at most `capacity` of them (one,
/// when the capacity is zero).
pub struct RingBuffer {
    data: std::collections::VecDeque<CompletedSpan>,
    capacity: usize,
    reference_time: Option<u64>,
}

impl View for RingBuffer {
    type V = Seq<CompletedSpan>;

    closed spec fn view(&self) -> Seq<CompletedSpan> {
        self.data@
    }
}

impl RingBuffer {
    pub closed spec fn spec_capacity(&self) -> usize {
        self.capacity
    }

    /// Start time of the first span pushed since the buffer was created or cleared.
    pub closed spec fn spec_reference_time(&self) -> Option<u64> {
        self.reference_time
    }

    /// The buffer holds no more spans than it may.
    pub open spec fn wf(&self) -> bool {
        self@.len() <= self.spec_capacity() || self@.len() <= 1
    }

    /// An empty buffer for up to `capacity` spans.
    pub fn new(capacity: usize) -> (r: RingBuffer)
        ensures
            r@ == Seq::<CompletedSpan>::empty(),
            r.spec_capacity() == capacity,
            r.spec_reference_time() is None,
            r.wf(),
    {
        RingBuffer { data: std::collections::VecDeque::with_capacity(capacity), capacity, reference_time: None }
    }

    /// Appends a span, dropping the oldest when the buffer is full. The first
    /// span pushed sets the reference time.
    pub fn push(&mut self, span: CompletedSpan)
        ensures
            old(self).wf() ==> final(self).wf(),
            final(self)@ == if old(self)@.len() >= old(self).spec_capacity() && old(self)@.len() > 0 {
                old(self)@.drop_first().push(span)
            } else {
                old(self)@.push(span)
            },
            final(self).spec_capacity() == old(self).spec_capacity(),
            final(self).spec_reference_time() == match old(self).spec_reference_time() {
                Some(t) => Some(t),
                None => Some(span.start_time),
            },
    {
        if self.reference_time.is_none() {
            self.reference_time = Some(span.start_time);
        }
        if self.data.len() >= self.capacity {
            let _ = self.data.pop_front();
        }
        self.data.push_back(span);
    }

    /// The first stored span with the given id.
    pub fn find(&self, id: SpanId) -> (r: Option<&CompletedSpan>)
        ensures
            match r {
                Some(s) => exists|i: int| 0 <= i < self@.len() && self@[i] == *s && s.id == id
                    && forall|j: int| 0 <= j < i ==> (#[trigger] self@[j]).id != id,
                None => forall|j: int| 0 <= j < self@.len() ==> (#[trigger] self@[j]).id != id,
            },
    {
        let mut i: usize = 0;
        while i < self.data.len()
            invariant
                i <= self@.len(),
                forall|j: int| 0 <= j < i ==> (#[trigger] self@[j]).id != id,
            decreases self@.len() - i,
        {
            if self.data[i].id == id {
                return Some(&self.data[i]);
            }
            i = i + 1;
        }
        None
    }

    fn index_of_id(&self, id: SpanId) -> (r: Option<usize>)
        ensures
            match r {
                Some(i) => i < self@.len() && self@[i as int].id == id && self.stores_id(id),
                None => !self.stores_id(id),
            },
    {
        let mut i: usize = 0;
        while i < self.data.len()
            invariant
                i <= self@.len(),
                forall|j: int| 0 <= j < i ==> (#[trigger] self@[j]).id != id,
            decreases self@.len() - i,
        {
            if self.data[i].id == id {
                return Some(i);
            }
            i = i + 1;
        }
        None
    }

    /// The most recent spans, newest first, at most `limit` of them.
    pub fn recent(&self, limit: usize) -> (r: Vec<&CompletedSpan>)
        ensures
            r@.len() == if limit < self@.len() { limit as int } else { self@.len() as int },
            forall|k: int| 0 <= k < r@.len() ==> *(#[trigger] r@[k]) == self@[self@.len() - 1 - k],
    {
        let n = self.data.len();
        let mut r: Vec<&CompletedSpan> = Vec::new();
        let mut k: usize = 0;
        while k < n && k < limit
            invariant
                n == self@.len(),
                k <= n,
                k <= limit,
                r@.len() == k,
                forall|j: int| 0 <= j < k ==> *(#[trigger] r@[j]) == self@[n - 1 - j],
            decreases n - k,
        {
            r.push(&self.data[n - 1 - k]);
            k = k + 1;
        }
        r
    }

    /// Whether a stored span has the given id.
    pub open spec fn stores_id(&self, id: SpanId) -> bool {
        exists|i: int| 0 <= i < self@.len() && #[trigger] self@[i].id == id
    }

    /// How many entries the root span takes in a tree listing: one when stored.
    pub open spec fn root_count(&self, root_id: SpanId) -> int {
        if self.stores_id(root_id) { 1 } else { 0 }
    }

    /// `r` lists stored spans, entry `k` being the one stored at `idx[k]`, no
    /// stored span twice. Each entry from `start` on (the root span, when
    /// stored, is entry 0) is a child of the entry `par[k]` before it, or of
    /// the root id when `par[k]` is -1. Entries come breadth first: ordered by
    /// the entry they are children of, and children of one entry in buffer order.
    pub open spec fn tree_listing(
        &self,
        root_id: SpanId,
        r: Seq<&CompletedSpan>,
        start: int,
        idx: Seq<int>,
        par: Seq<int>,
    ) -> bool {
        &&& idx.len() == r.len() && par.len() == r.len()
        &&& idx.no_duplicates()
        &&& forall|k: int| 0 <= k < r.len() ==> 0 <= #[trigger] idx[k] < self@.len() && self@[idx[k]] == *r[k]
        &&& forall|k: int| start <= k < r.len() ==> -1 <= #[trigger] par[k] < k
            && r[k].parent_id == Some(if par[k] < 0 { root_id } else { r[par[k]].id })
        &&& forall|k1: int, k2: int| start <= k1 < k2 < r.len() ==> #[trigger] par[k1] <= #[trigger] par[k2]
            && (par[k1] == par[k2] ==> idx[k1] < idx[k2])
    }

    /// The root span when it is stored, then its descendants: every stored
    /// span whose parent is the root or a span already listed, breadth
    /// first. Each stored span is listed at most once.
    pub fn find_tree(&self, root_id: SpanId) -> (r: Vec<&CompletedSpan>)
        ensures
            forall|k: int| 0 <= k < r@.len() ==> exists|i: int| 0 <= i < self@.len() && self@[i] == *(#[trigger] r@[k]),
            self.stores_id(root_id) ==> r@.len() > 0 && r@[0].id == root_id,
            exists|idx: Seq<int>, par: Seq<int>|
                #[trigger] self.tree_listing(root_id, r@, self.root_count(root_id), idx, par),
            forall|i: int| 0 <= i < self@.len() && (
                (#[trigger] self@[i]).parent_id == Some(root_id)
                || exists|m: int| 0 <= m < r@.len() && self@[i].parent_id == Some(r@[m].id)
            ) ==> exists|k: int| 0 <= k < r@.len() && *r@[k] == self@[i],
    {
        let n = self.data.len();
        let mut added: Vec<bool> = Vec::new();
        while added.len() < n
            invariant
                added@.len() <= n,
                n == self@.len(),
                forall|j: int| 0 <= j < added@.len() ==> !added@[j],
            decreases n - added@.len(),
        {
            added.push(false);
        }
        let mut tree: Vec<&CompletedSpan> = Vec::new();
        let ghost mut idx: Seq<int> = seq![];
        let ghost mut par: Seq<int> = seq![];
        let mut queue: Vec<SpanId> = Vec::new();
        queue.push(root_id);
        let has_root = match self.index_of_id(root_id) {
            Some(i0) => {
                added.set(i0, true);
                tree.push(&self.data[i0]);
                proof {
                    idx = idx.push(i0 as int);
                    par = par.push(-2);
                    assert forall|j: int| 0 <= j < n && #[trigger] added@[j] implies exists|k: int| 0 <= k < idx.len() && idx[k] == j by {
                        assert(j == i0);
                        assert(idx[0] == j);
                    }
                }
                true
            },
            None => false,
        };
        let start: usize = if has_root { 1 } else { 0 };
        let mut head: usize = 0;
        while head < queue.len()
            invariant
                n == self@.len(),
                added@.len() == n,
                has_root == self.stores_id(root_id),
                start == (if has_root { 1usize } else { 0usize }),
                has_root ==> tree@.len() >= 1 && tree@[0].id == root_id,
                tree@.len() == idx.len(),
                tree@.len() >= start,
                forall|k: int| 0 <= k < idx.len() ==> 0 <= #[trigger] idx[k] < n && *tree@[k] == self@[idx[k]],
                forall|k: int| 0 <= k < idx.len() ==> added@[#[trigger] idx[k]],
                forall|j: int| 0 <= j < n && #[trigger] added@[j] ==> exists|k: int| 0 <= k < idx.len() && idx[k] == j,
                queue@.len() == tree@.len() - start + 1,
                queue@[0] == root_id,
                forall|q: int| 1 <= q < queue@.len() ==> #[trigger] queue@[q] == tree@[q - 1 + start].id,
                head <= queue@.len(),
                par.len() == tree@.len(),
                idx.no_duplicates(),
                forall|k: int| start <= k < tree@.len() ==> -1 <= #[trigger] par[k] < k
                    && tree@[k].parent_id == Some(if par[k] < 0 { root_id } else { tree@[par[k]].id }),
                forall|k1: int, k2: int| start <= k1 < k2 < tree@.len() ==> #[trigger] par[k1] <= #[trigger] par[k2]
                    && (par[k1] == par[k2] ==> idx[k1] < idx[k2]),
                forall|k: int| start <= k < tree@.len() ==> #[trigger] par[k] < queue_origin(head as int, start as int),
                forall|j: int, q: int| 0 <= j < n && 0 <= q < head && self@[j].parent_id == Some(queue@[q])
                    ==> #[trigger] added@[j] && #[trigger] queue@[q] == queue@[q],
                forall|k: int| start <= k < tree@.len() ==> {
                    ||| (#[trigger] tree@[k]).parent_id == Some(root_id)
                    ||| exists|m: int| 0 <= m < k && tree@[k].parent_id == Some(tree@[m].id)
                },
            decreases count_false(added@), queue@.len() - head,
        {
            let parent = queue[head];
            let ghost falses0 = count_false(added@);
            let ghost qlen0 = queue@.len();
            let mut j: usize = 0;
            while j < n
                invariant
                    n == self@.len(),
                    added@.len() == n,
                    j <= n,
                    has_root == self.stores_id(root_id),
                    start == (if has_root { 1usize } else { 0usize }),
                    has_root ==> tree@.len() >= 1 && tree@[0].id == root_id,
                    tree@.len() == idx.len(),
                    tree@.len() >= start,
                    forall|k: int| 0 <= k < idx.len() ==> 0 <= #[trigger] idx[k] < n && *tree@[k] == self@[idx[k]],
                    forall|k: int| 0 <= k < idx.len() ==> added@[#[trigger] idx[k]],
                    forall|i: int| 0 <= i < n && #[trigger] added@[i] ==> exists|k: int| 0 <= k < idx.len() && idx[k] == i,
                    queue@.len() == tree@.len() - start + 1,
                    queue@[0] == root_id,
                    forall|q: int| 1 <= q < queue@.len() ==> #[trigger] queue@[q] == tree@[q - 1 + start].id,
                    head < qlen0 <= queue@.len(),
                    par.len() == tree@.len(),
                    idx.no_duplicates(),
                    forall|k: int| start <= k < tree@.len() ==> -1 <= #[trigger] par[k] < k
                        && tree@[k].parent_id == Some(if par[k] < 0 { root_id } else { tree@[par[k]].id }),
                    forall|k1: int, k2: int| start <= k1 < k2 < tree@.len() ==> #[trigger] par[k1] <= #[trigger] par[k2]
                        && (par[k1] == par[k2] ==> idx[k1] < idx[k2]),
                    forall|k: int| start <= k < tree@.len() ==> #[trigger] par[k] <= queue_origin(head as int, start as int)
                        && (par[k] == queue_origin(head as int, start as int) ==> idx[k] < j),
                    parent == queue@[head as int],
                    count_false(added@) + (queue@.len() - qlen0) == falses0,
                    forall|i: int, q: int| 0 <= i < n && 0 <= q < head && self@[i].parent_id == Some(queue@[q])
                        ==> #[trigger] added@[i] && #[trigger] queue@[q] == queue@[q],
                    forall|i: int| 0 <= i < j && self@[i].parent_id == Some(parent) ==> #[trigger] added@[i],
                    forall|k: int| start <= k < tree@.len() ==> {
                        ||| (#[trigger] tree@[k]).parent_id == Some(root_id)
                        ||| exists|m: int| 0 <= m < k && tree@[k].parent_id == Some(tree@[m].id)
                    },
                decreases n - j,
            {
                if !added[j] && self.data[j].parent_id == Some(parent) {
                    let ghost before = added@;
                    let ghost tree_before = tree@;
                    let ghost queue_before = queue@;
                    let ghost idx_before = idx;
                    let ghost par_before = par;
                    added.set(j, true);
                    proof {
                        lemma_count_false_set(before, j as int);
                    }
                    tree.push(&self.data[j]);
                    queue.push(self.data[j].id);
                    proof {
                        idx = idx.push(j as int);
                        par = par.push(queue_origin(head as int, start as int));
                        let k = tree@.len() - 1;
                        assert(!idx_before.contains(j as int)) by {
                            if idx_before.contains(j as int) {
                                let k0 = choose|k0: int| 0 <= k0 < idx_before.len() && idx_before[k0] == j as int;
                                assert(before[idx_before[k0]]);
                            }
                        }
                        assert(idx.no_duplicates()) by {
                            assert forall|a: int, b: int| 0 <= a < idx.len() && 0 <= b < idx.len() && a != b implies idx[a] != idx[b] by {
                                if a < k && b < k {
                                    assert(idx[a] == idx_before[a] && idx[b] == idx_before[b]);
                                } else if a == k {
                                    assert(idx[b] == idx_before[b]);
                                } else {
                                    assert(idx[a] == idx_before[a]);
                                }
                            }
                        }
                        assert(par[k] < k) by {
                            if head > 0 {
                                assert(head - 1 + start < tree_before.len());
                            }
                        }
                        if head > 0 {
                            let m = head - 1 + start;
                            assert(queue_before[head as int] == tree_before[m].id);
                            assert(tree@[m] == tree_before[m]);
                        }
                        assert forall|k1: int| start <= k1 < tree@.len() implies -1 <= #[trigger] par[k1] < k1
                            && tree@[k1].parent_id == Some(if par[k1] < 0 { root_id } else { tree@[par[k1]].id }) by {
                            if k1 < k {
                                assert(par[k1] == par_before[k1]);
                                assert(tree@[k1] == tree_before[k1]);
                                if par[k1] >= 0 {
                                    assert(tree@[par[k1]] == tree_before[par[k1]]);
                                }
                            }
                        }
                        assert forall|k1: int, k2: int| start <= k1 < k2 < tree@.len() implies #[trigger] par[k1] <= #[trigger] par[k2]
                            && (par[k1] == par[k2] ==> idx[k1] < idx[k2]) by {
                            assert(par[k1] == par_before[k1] && idx[k1] == idx_before[k1]);
                            if k2 < k {
                                assert(par[k2] == par_before[k2] && idx[k2] == idx_before[k2]);
                            }
                        }
                        assert forall|k1: int| start <= k1 < tree@.len() implies #[trigger] par[k1] <= queue_origin(head as int, start as int)
                            && (par[k1] == queue_origin(head as int, start as int) ==> idx[k1] < j + 1) by {
                            if k1 < k {
                                assert(par[k1] == par_before[k1] && idx[k1] == idx_before[k1]);
                            }
                        }
                        if head == 0 {
                            assert(tree@[k].parent_id == Some(root_id));
                        } else {
                            let m = head - 1 + start;
                            assert(queue_before[head as int] == tree_before[m].id);
                            assert(tree@[m] == tree_before[m]);
                            assert(0 <= m < k && tree@[k].parent_id == Some(tree@[m].id));
                        }
                        assert forall|q: int| 1 <= q < queue@.len() implies #[trigger] queue@[q] == tree@[q - 1 + start].id by {
                            if q < queue@.len() - 1 {
                                assert(queue@[q] == queue_before[q]);
                                assert(tree@[q - 1 + start] == tree_before[q - 1 + start]);
                            }
                        }
                        assert forall|i: int| 0 <= i < n && #[trigger] added@[i] implies exists|k: int| 0 <= k < idx.len() && idx[k] == i by {
                            if i == j {
                                assert(idx[idx.len() - 1] == i);
                            } else {
                                assert(before[i]);
                                let k0 = choose|k: int| 0 <= k < idx_before.len() && idx_before[k] == i;
                                assert(idx[k0] == idx_before[k0]);
                            }
                        }
                        assert forall|k: int| start <= k < tree@.len() implies {
                            ||| (#[trigger] tree@[k]).parent_id == Some(root_id)
                            ||| exists|m: int| 0 <= m < k && tree@[k].parent_id == Some(tree@[m].id)
                        } by {
                            if k < tree@.len() - 1 {
                                assert(tree@[k] == tree_before[k]);
                                if !(tree_before[k].parent_id == Some(root_id)) {
                                    let m = choose|m: int| 0 <= m < k && tree_before[k].parent_id == Some(tree_before[m].id);
                                    assert(tree@[m] == tree_before[m]);
                                }
                            }
                        }
                    }
                }
                j = j + 1;
            }
            head = head + 1;
            proof {
                assert forall|i: int, q: int| 0 <= i < n && 0 <= q < head && self@[i].parent_id == Some(queue@[q])
                    implies #[trigger] added@[i] && #[trigger] queue@[q] == queue@[q] by {
                    if q == head - 1 {
                        assert(queue@[q] == parent);
                    }
                }
            }
        }
        proof {
            assert forall|i: int| 0 <= i < self@.len() && (
                (#[trigger] self@[i]).parent_id == Some(root_id)
                || exists|m: int| 0 <= m < tree@.len() && self@[i].parent_id == Some(tree@[m].id)
            ) implies exists|k: int| 0 <= k < tree@.len() && *tree@[k] == self@[i] by {
                if self@[i].parent_id == Some(root_id) {
                    assert(queue@[0] == root_id);
                    assert(added@[i]);
                } else {
                    let m = choose|m: int| 0 <= m < tree@.len() && self@[i].parent_id == Some(tree@[m].id);
                    if m < start {
                        assert(tree@[0].id == root_id);
                        assert(queue@[0] == root_id);
                        assert(added@[i]);
                    } else {
                        let q = m + 1 - start;
                        assert(queue@[q] == tree@[m].id);
                        assert(added@[i]);
                    }
                }
                let k = choose|k: int| 0 <= k < idx.len() && idx[k] == i;
                assert(*tree@[k] == self@[i]);
            }
            assert forall|k: int| 0 <= k < tree@.len() implies exists|i: int| 0 <= i < self@.len() && self@[i] == *(#[trigger] tree@[k]) by {
                assert(self@[idx[k]] == *tree@[k]);
            }
            assert(self.tree_listing(root_id, tree@, start as int, idx, par));
            assert(self.root_count(root_id) == start as int);
            assert(self.tree_listing(root_id, tree@, self.root_count(root_id), idx, par));
        }
        tree
    }

    /// Number of stored spans.
    pub fn len(&self) -> (r: usize)
        ensures
            r == self@.len(),
    {
        self.data.len()
    }

    /// Whether no span is stored.
    pub fn is_empty(&self) -> (r: bool)
        ensures
            r == (self@.len() == 0),
    {
        self.data.len() == 0
    }

    /// Most spans kept.
    pub fn capacity(&self) -> (r: usize)
        ensures
            r == self.spec_capacity(),
    {
        self.capacity
    }

    /// Start time of the first span pushed since creation or the last clear.
    pub fn reference_time(&self) -> (r: Option<u64>)
        ensures
            r == self.spec_reference_time(),
    {
        self.reference_time
    }

    /// Drops every span and the reference time.
    pub fn clear(&mut self)
        ensures
            final(self)@ == Seq::<CompletedSpan>::empty(),
            final(self).spec_capacity() == old(self).spec_capacity(),
            final(self).spec_reference_time() is None,
            final(self).wf(),
    {
        self.data.clear();
        self.reference_time = None;
    }
}


/// Where the `q`-th queued id came from: the root id (-1), else the listed
/// span at `q - 1 + start`.
pub open spec fn queue_origin(q: int, start: int) -> int {
    if q == 0 { -1 } else { q - 1 + start }
}

/// How many flags are unset.
pub open spec fn count_false(s: Seq<bool>) -> nat
    decreases s.len(),
{
    if s.len() == 0 {
        0
    } else {
        count_false(s.drop_last()) + if s.last() { 0nat } else { 1nat }
    }
}

proof fn lemma_count_false_set(s: Seq<bool>, j: int)
    requires
        0 <= j < s.len(),
        !s[j],
    ensures
        count_false(s.update(j, true)) + 1 == count_false(s),
    decreases s.len(),
{
    let t = s.update(j, true);
    if j == s.len() - 1 {
        assert(t.drop_last() =~= s.drop_last());
    } else {
        assert(t.drop_last() =~= s.drop_last().update(j, true));
        lemma_count_false_set(s.drop_last(), j);
    }
}

} // verus!
