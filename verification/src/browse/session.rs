//! What the gateway remembers of one browse session.

use crate::collections::StrMap;
use crate::opc::{BrowseNode, BrowsePage};
use crate::text::{copy_text, same_text};
use crate::time::Instant;
use vstd::hash_map::StringHashMap;
use vstd::prelude::*;

verus! {

pub const MAX_CACHED_PAGES_PER_SESSION: usize = 256;

pub const MAX_NODE_BINDINGS_PER_SESSION: usize = 100_000;

pub const MAX_PAGE_BINDINGS_PER_SESSION: usize = 256;

/// Which page: of which parent, from which cursor on, and how large.
#[derive(Debug, Clone, PartialEq, Eq)]
pub struct PageKey {
    pub parent_node_key: Option<String>,
    pub page_token: Option<String>,
    pub page_size: u32,
}

pub struct PageKeyView {
    pub parent_node_key: Option<Seq<char>>,
    pub page_token: Option<Seq<char>>,
    pub page_size: u32,
}

impl View for PageKey {
    type V = PageKeyView;

    open spec fn view(&self) -> PageKeyView {
        PageKeyView {
            parent_node_key: crate::text::optional_view(self.parent_node_key),
            page_token: crate::text::optional_view(self.page_token),
            page_size: self.page_size,
        }
    }
}

/// What a cursor of the gateway stands for, and what it may be used with.
#[derive(Debug, Clone, PartialEq, Eq)]
pub struct PageBinding {
    pub native_page_token: String,
    pub parent_node_key: Option<String>,
    pub page_size: u32,
}

pub(crate) fn same_optional(a: &Option<String>, b: &Option<String>) -> (same: bool)
    ensures
        same == (crate::text::optional_view(*a) == crate::text::optional_view(*b)),
{
    match (a, b) {
        (Some(a), Some(b)) => same_text(a.as_str(), b.as_str()),
        (None, None) => true,
        _ => false,
    }
}

fn same_key(a: &PageKey, b: &PageKey) -> (same: bool)
    ensures
        same == (a@ == b@),
{
    same_optional(&a.parent_node_key, &b.parent_node_key) && same_optional(
        &a.page_token,
        &b.page_token,
    ) && a.page_size == b.page_size
}

pub(crate) fn owned(text: Option<&str>) -> (copy: Option<String>)
    ensures
        crate::text::optional_view(copy) == crate::text::optional_str_view(text),
{
    match text {
        Some(text) => Some(text.to_owned()),
        None => None,
    }
}

/// Whether two pages say the same.
pub open spec fn same_page(a: BrowsePage, b: BrowsePage) -> bool {
    &&& a.nodes@ == b.nodes@
    &&& a.next_page_token == b.next_page_token
    &&& a.complete == b.complete
    &&& a.organization == b.organization
    &&& a.source == b.source
    &&& a.warning == b.warning
}

pub(crate) fn copy_page(page: &BrowsePage) -> (copy: BrowsePage)
    ensures
        same_page(copy, *page),
{
    let mut nodes: Vec<BrowseNode> = Vec::new();
    let mut i: usize = 0;
    while i < page.nodes.len()
        invariant
            i <= page.nodes.len(),
            nodes@ == page.nodes@.take(i as int),
        decreases page.nodes.len() - i,
    {
        let node = &page.nodes[i];
        nodes.push(
            BrowseNode {
                node_key: node.node_key.clone(),
                display_name: node.display_name.clone(),
                kind: node.kind,
                item_id: copy_text(&node.item_id),
            },
        );
        assert(page.nodes@.take(i + 1) =~= page.nodes@.take(i as int).push(page.nodes@[i as int]));
        i += 1;
    }
    assert(page.nodes@.take(i as int) =~= page.nodes@);
    BrowsePage {
        nodes,
        next_page_token: copy_text(&page.next_page_token),
        complete: page.complete,
        organization: page.organization,
        source: page.source,
        warning: copy_text(&page.warning),
    }
}

/// Whether a cached page belongs to a parent.
pub open spec fn is_of_parent(entry: (PageKey, BrowsePage), parent: Option<Seq<char>>) -> bool {
    entry.0@.parent_node_key == parent
}

pub open spec fn of_other_parents(parent: Option<Seq<char>>) -> spec_fn(
    (PageKey, BrowsePage),
) -> bool {
    |entry: (PageKey, BrowsePage)| !is_of_parent(entry, parent)
}

pub open spec fn of_other_keys(key: PageKeyView) -> spec_fn((PageKey, BrowsePage)) -> bool {
    |entry: (PageKey, BrowsePage)| entry.0@ != key
}

/// The page cached under a key.
pub open spec fn cached_page(pages: Seq<(PageKey, BrowsePage)>, key: PageKeyView) -> Option<
    BrowsePage,
>
    decreases pages.len(),
{
    if pages.len() == 0 {
        None
    } else if pages[0].0@ == key {
        Some(pages[0].1)
    } else {
        cached_page(pages.drop_first(), key)
    }
}

/// The newest entries of a list, as many as may be kept.
pub open spec fn newest<T>(entries: Seq<T>, limit: nat) -> Seq<T> {
    if entries.len() > limit {
        entries.skip(entries.len() - limit)
    } else {
        entries
    }
}

/// The cached pages once another was stored: it is the newest, under a key of
/// its own.
pub open spec fn with_page(
    pages: Seq<(PageKey, BrowsePage)>,
    key: PageKey,
    page: BrowsePage,
) -> Seq<(PageKey, BrowsePage)> {
    newest(
        pages.filter(of_other_keys(key@)).push((key, page)),
        MAX_CACHED_PAGES_PER_SESSION as nat,
    )
}

/// The cursors that a list of them leaves bound once the oldest beyond the
/// limit were dropped.
pub open spec fn unbound(
    bindings: Map<Seq<char>, PageBinding>,
    order: Seq<String>,
) -> Map<Seq<char>, PageBinding>
    decreases order.len(),
{
    if order.len() > MAX_PAGE_BINDINGS_PER_SESSION {
        unbound(bindings.remove(order[0]@), order.drop_first())
    } else {
        bindings
    }
}

/// The bindings of a page's nodes: each identifier stands for the node in its
/// place.
pub open spec fn bound_nodes(
    bindings: Map<Seq<char>, String>,
    tokens: Seq<String>,
    nodes: Seq<BrowseNode>,
) -> Map<Seq<char>, String>
    decreases nodes.len(),
{
    if nodes.len() == 0 {
        bindings
    } else {
        bound_nodes(bindings, tokens, nodes.drop_last()).insert(
            tokens[nodes.len() - 1]@,
            nodes.last().node_key,
        )
    }
}

/// A browse session.
pub struct Session {
    pub server: String,
    pub native_session_id: String,
    pub last_used: Instant,
    /// What the nodes of the gateway stand for.
    pub node_bindings: StringHashMap<String>,
    /// What the cursors of the gateway stand for.
    pub page_bindings: StrMap<PageBinding>,
    /// The cursors, the oldest first.
    pub page_binding_order: Vec<String>,
    /// The cached pages, the oldest first.
    pub pages: Vec<(PageKey, BrowsePage)>,
}

/// Whether a cursor is in a list.
pub open spec fn listed(order: Seq<String>, token: Seq<char>) -> bool {
    exists|i: int| 0 <= i < order.len() && (#[trigger] order[i])@ == token
}

/// Which cursors are bound.
pub open spec fn still_bound(bindings: Map<Seq<char>, PageBinding>) -> spec_fn(String) -> bool {
    |token: String| bindings.contains_key(token@)
}

/// The cursors of other parents.
pub open spec fn bindings_of_others(
    bindings: Map<Seq<char>, PageBinding>,
    parent: Option<Seq<char>>,
) -> Map<Seq<char>, PageBinding> {
    Map::new(
        |token: Seq<char>|
            bindings.contains_key(token) && crate::text::optional_view(
                bindings[token].parent_node_key,
            ) != parent,
        |token: Seq<char>| bindings[token],
    )
}

impl Session {
    /// No page is cached twice, every bound cursor is listed, and nothing
    /// outgrows its limit.
    pub open spec fn wf(self) -> bool {
        &&& forall|i: int, j: int|
            0 <= i < j < self.pages@.len() ==> (#[trigger] self.pages@[i]).0@ != (
            #[trigger] self.pages@[j]).0@
        &&& self.pages@.len() <= MAX_CACHED_PAGES_PER_SESSION
        &&& self.page_bindings.wf()
        &&& self.page_binding_order@.len() <= MAX_PAGE_BINDINGS_PER_SESSION
        &&& forall|token: Seq<char>| #[trigger]
            self.page_bindings@.contains_key(token) ==> listed(self.page_binding_order@, token)
        &&& self.node_bindings@.dom().finite()
        &&& self.node_bindings@.dom().len() <= MAX_NODE_BINDINGS_PER_SESSION
    }

    pub fn new(server: String, native_session_id: String, now: Instant) -> (session: Self)
        ensures
            session.wf(),
            session.server == server,
            session.native_session_id == native_session_id,
            session.last_used == now,
            session.node_bindings@ == Map::<Seq<char>, String>::empty(),
            session.page_bindings@ == Map::<Seq<char>, PageBinding>::empty(),
            session.page_binding_order@ == Seq::<String>::empty(),
            session.pages@ == Seq::<(PageKey, BrowsePage)>::empty(),
    {
        Session {
            server,
            native_session_id,
            last_used: now,
            node_bindings: StringHashMap::new(),
            page_bindings: StrMap::new(),
            page_binding_order: Vec::new(),
            pages: Vec::new(),
        }
    }

    pub fn touch(&mut self, now: Instant)
        ensures
            *final(self) == (Session { last_used: now, ..*old(self) }),
    {
        self.last_used = now;
    }

    /// The page cached under a key.
    pub fn find_page(&self, key: &PageKey) -> (page: Option<BrowsePage>)
        ensures
            page is Some == cached_page(self.pages@, key@) is Some,
            page matches Some(page) ==> same_page(page, cached_page(self.pages@, key@)->0),
    {
        let mut i: usize = 0;
        assert(self.pages@.skip(0) =~= self.pages@);
        while i < self.pages.len()
            invariant
                i <= self.pages.len(),
                cached_page(self.pages@.skip(i as int), key@) == cached_page(self.pages@, key@),
            decreases self.pages.len() - i,
        {
            assert(self.pages@.skip(i as int).drop_first() =~= self.pages@.skip(i + 1));
            if same_key(&self.pages[i].0, key) {
                return Some(copy_page(&self.pages[i].1));
            }
            i += 1;
        }
        None
    }

    /// Caches a page. Beyond the limit the oldest leave.
    pub fn cache_page(&mut self, key: PageKey, page: BrowsePage)
        ensures
            *final(self) == (Session { pages: final(self).pages, ..*old(self) }),
            final(self).pages@ == with_page(old(self).pages@, key, page),
            old(self).wf() ==> final(self).wf(),
    {
        let ghost before = self.pages@;
        let ghost keep = of_other_keys(key@);
        let mut i: usize = 0;
        proof {
            assert(before.take(0).filter(keep) =~= Seq::empty()) by {
                reveal(Seq::filter);
            }
            assert(before.skip(0) =~= before);
            assert(Seq::<(PageKey, BrowsePage)>::empty() + before =~= before);
        }
        let ghost mut done: int = 0;
        while i < self.pages.len()
            invariant
                i <= self.pages.len(),
                keep == of_other_keys(key@),
                0 <= done <= before.len(),
                self.pages@.take(i as int) == before.take(done).filter(keep),
                self.pages@.skip(i as int) == before.skip(done),
                *self == (Session { pages: self.pages, ..*old(self) }),
            decreases self.pages.len() - i,
        {
            let ghost here = self.pages@;
            proof {
                filtering_one_more(before, here, i as int, done, keep);
            }
            if same_key(&self.pages[i].0, &key) {
                let _ = self.pages.remove(i);
            } else {
                i += 1;
            }
            proof {
                done = done + 1;
            }
        }
        proof {
            assert(self.pages@.skip(i as int).len() == 0);
            assert(before.take(done) =~= before);
            assert(self.pages@.take(i as int) =~= self.pages@);
        }
        self.pages.push((key, page));
        let ghost full = self.pages@;
        assert(full.skip(0) =~= full);
        let ghost mut dropped: int = 0;
        while self.pages.len() > MAX_CACHED_PAGES_PER_SESSION
            invariant
                0 <= dropped <= full.len(),
                self.pages@ == full.skip(dropped),
                dropped > 0 ==> full.len() - dropped >= MAX_CACHED_PAGES_PER_SESSION,
                *self == (Session { pages: self.pages, ..*old(self) }),
            decreases self.pages.len(),
        {
            let _ = self.pages.remove(0);
            proof {
                assert(full.skip(dropped).remove(0) =~= full.skip(dropped + 1));
                dropped = dropped + 1;
            }
        }
        proof {
            assert(self.pages@ =~= with_page(before, key, page));
            if old(self).wf() {
                Self::caching_keeps_keys_apart(before, key, page);
            }
        }
    }

    proof fn caching_keeps_keys_apart(
        pages: Seq<(PageKey, BrowsePage)>,
        key: PageKey,
        page: BrowsePage,
    )
        requires
            forall|i: int, j: int|
                0 <= i < j < pages.len() ==> (#[trigger] pages[i]).0@ != (#[trigger] pages[j]).0@,
        ensures
            forall|i: int, j: int|
                0 <= i < j < with_page(pages, key, page).len() ==> (#[trigger] with_page(
                    pages,
                    key,
                    page,
                )[i]).0@ != (#[trigger] with_page(pages, key, page)[j]).0@,
    {
        let keep = of_other_keys(key@);
        filtering_keeps_keys_apart(pages, keep);
        let kept = pages.filter(keep);
        assert forall|i: int| 0 <= i < kept.len() implies (#[trigger] kept[i]).0@ != key@ by {
            pages.lemma_filter_pred(keep, i);
        }
    }

    /// Forgets what was seen of a parent's children: their pages and cursors.
    pub fn invalidate_parent(&mut self, parent_node_key: &Option<String>)
        ensures
            *final(self) == (Session {
                pages: final(self).pages,
                page_bindings: final(self).page_bindings,
                page_binding_order: final(self).page_binding_order,
                ..*old(self)
            }),
            final(self).pages@ == old(self).pages@.filter(
                of_other_parents(crate::text::optional_view(*parent_node_key)),
            ),
            final(self).page_bindings@ == bindings_of_others(
                old(self).page_bindings@,
                crate::text::optional_view(*parent_node_key),
            ),
            final(self).page_binding_order@ == old(self).page_binding_order@.filter(
                still_bound(
                    bindings_of_others(
                        old(self).page_bindings@,
                        crate::text::optional_view(*parent_node_key),
                    ),
                ),
            ),
            old(self).wf() ==> final(self).wf(),
    {
        let ghost parent = crate::text::optional_view(*parent_node_key);
        self.drop_pages(parent_node_key);
        self.drop_bindings(parent_node_key);
        self.drop_unbound();
        proof {
            if old(self).wf() {
                let before = old(self).page_binding_order@;
                let keep = still_bound(self.page_bindings@);
                filtering_keeps_keys_apart(old(self).pages@, of_other_parents(parent));
                before.lemma_filter_len(keep);
                assert forall|token: Seq<char>| #[trigger]
                    self.page_bindings@.contains_key(token) implies listed(
                    self.page_binding_order@,
                    token,
                ) by {
                    assert(listed(before, token));
                    let i = choose|i: int| 0 <= i < before.len() && (#[trigger] before[i])@ == token;
                    before.lemma_filter_contains(keep, i);
                    let k = before.filter(keep).index_of(before[i]);
                    assert(self.page_binding_order@[k]@ == token);
                }
            }
        }
    }

    fn drop_pages(&mut self, parent_node_key: &Option<String>)
        ensures
            *final(self) == (Session { pages: final(self).pages, ..*old(self) }),
            final(self).pages@ == old(self).pages@.filter(
                of_other_parents(crate::text::optional_view(*parent_node_key)),
            ),
    {
        let ghost before = self.pages@;
        let ghost keep = of_other_parents(crate::text::optional_view(*parent_node_key));
        let mut i: usize = 0;
        let ghost mut done: int = 0;
        proof {
            assert(before.take(0).filter(keep) =~= Seq::empty()) by {
                reveal(Seq::filter);
            }
            assert(before.skip(0) =~= before);
        }
        while i < self.pages.len()
            invariant
                i <= self.pages.len(),
                keep == of_other_parents(crate::text::optional_view(*parent_node_key)),
                0 <= done <= before.len(),
                self.pages@.take(i as int) == before.take(done).filter(keep),
                self.pages@.skip(i as int) == before.skip(done),
                *self == (Session { pages: self.pages, ..*old(self) }),
            decreases self.pages.len() - i,
        {
            let ghost here = self.pages@;
            proof {
                filtering_one_more(before, here, i as int, done, keep);
            }
            if same_optional(&self.pages[i].0.parent_node_key, parent_node_key) {
                let _ = self.pages.remove(i);
            } else {
                i += 1;
            }
            proof {
                done = done + 1;
            }
        }
        proof {
            assert(self.pages@.skip(i as int).len() == 0);
            assert(before.take(done) =~= before);
            assert(self.pages@.take(i as int) =~= self.pages@);
        }
    }

    fn drop_bindings(&mut self, parent_node_key: &Option<String>)
        ensures
            *final(self) == (Session { page_bindings: final(self).page_bindings, ..*old(self) }),
            final(self).page_bindings@ == bindings_of_others(
                old(self).page_bindings@,
                crate::text::optional_view(*parent_node_key),
            ),
            old(self).page_bindings.wf() ==> final(self).page_bindings.wf(),
    {
        let ghost parent = crate::text::optional_view(*parent_node_key);
        let ghost before = self.page_bindings@;
        let keys = self.page_bindings.keys();
        let ghost names = crate::text::texts(keys@);
        let mut i: usize = 0;
        while i < keys.len()
            invariant
                i <= keys.len(),
                names == crate::text::texts(keys@),
                parent == crate::text::optional_view(*parent_node_key),
                *self == (Session { page_bindings: self.page_bindings, ..*old(self) }),
                old(self).page_bindings.wf() ==> self.page_bindings.wf(),
                forall|token: Seq<char>|
                    before.contains_key(token) == #[trigger] names.contains(token),
                forall|token: Seq<char>| #[trigger]
                    self.page_bindings@.contains_key(token) ==> before.contains_key(token)
                        && self.page_bindings@[token] == before[token],
                forall|token: Seq<char>| #[trigger]
                    before.contains_key(token) && crate::text::optional_view(
                        before[token].parent_node_key,
                    ) != parent ==> self.page_bindings@.contains_key(token),
                forall|j: int|
                    0 <= j < i && self.page_bindings@.contains_key((#[trigger] keys@[j])@)
                        ==> crate::text::optional_view(
                        self.page_bindings@[keys@[j]@].parent_node_key,
                    ) != parent,
            decreases keys.len() - i,
        {
            let of_parent = match self.page_bindings.get(keys[i].as_str()) {
                Some(binding) => same_optional(&binding.parent_node_key, parent_node_key),
                None => false,
            };
            if of_parent {
                self.page_bindings.remove(keys[i].as_str());
            }
            i += 1;
        }
        proof {
            assert forall|token: Seq<char>| #[trigger]
                self.page_bindings@.contains_key(token) implies crate::text::optional_view(
                before[token].parent_node_key,
            ) != parent by {
                assert(names.contains(token));
                let j = choose|j: int| 0 <= j < names.len() && names[j] == token;
                assert(keys@[j]@ == token);
            }
            assert(self.page_bindings@ =~= bindings_of_others(before, parent));
        }
    }

    fn drop_unbound(&mut self)
        ensures
            *final(self) == (Session {
                page_binding_order: final(self).page_binding_order,
                ..*old(self)
            }),
            final(self).page_binding_order@ == old(self).page_binding_order@.filter(
                still_bound(old(self).page_bindings@),
            ),
    {
        let ghost before = self.page_binding_order@;
        let ghost keep = still_bound(self.page_bindings@);
        let mut i: usize = 0;
        let ghost mut done: int = 0;
        proof {
            assert(before.take(0).filter(keep) =~= Seq::empty()) by {
                reveal(Seq::filter);
            }
            assert(before.skip(0) =~= before);
        }
        while i < self.page_binding_order.len()
            invariant
                i <= self.page_binding_order.len(),
                keep == still_bound(self.page_bindings@),
                0 <= done <= before.len(),
                self.page_binding_order@.take(i as int) == before.take(done).filter(keep),
                self.page_binding_order@.skip(i as int) == before.skip(done),
                *self == (Session {
                    page_binding_order: self.page_binding_order,
                    ..*old(self)
                }),
            decreases self.page_binding_order.len() - i,
        {
            let ghost here = self.page_binding_order@;
            proof {
                filtering_one_more(before, here, i as int, done, keep);
            }
            if !self.page_bindings.contains_key(self.page_binding_order[i].as_str()) {
                let _ = self.page_binding_order.remove(i);
            } else {
                i += 1;
            }
            proof {
                done = done + 1;
            }
        }
        proof {
            assert(self.page_binding_order@.skip(i as int).len() == 0);
            assert(before.take(done) =~= before);
            assert(self.page_binding_order@.take(i as int) =~= self.page_binding_order@);
        }
    }

    /// Binds a cursor. Beyond the limit the oldest leave.
    pub fn bind_page(&mut self, token: String, binding: PageBinding)
        ensures
            *final(self) == (Session {
                page_bindings: final(self).page_bindings,
                page_binding_order: final(self).page_binding_order,
                ..*old(self)
            }),
            final(self).page_bindings@ == unbound(
                old(self).page_bindings@.insert(token@, binding),
                old(self).page_binding_order@.push(token),
            ),
            final(self).page_binding_order@ == newest(
                old(self).page_binding_order@.push(token),
                MAX_PAGE_BINDINGS_PER_SESSION as nat,
            ),
            old(self).wf() ==> final(self).wf(),
    {
        self.page_bindings.insert(token.as_str(), binding);
        self.page_binding_order.push(token);
        let ghost full = self.page_binding_order@;
        let ghost bound = self.page_bindings@;
        let ghost mut dropped: int = 0;
        proof {
            assert(full.skip(0) =~= full);
            if old(self).wf() {
                let order = old(self).page_binding_order@;
                assert forall|name: Seq<char>| #[trigger] bound.contains_key(name) implies listed(
                    full,
                    name,
                ) by {
                    if name == token@ {
                        assert(full[order.len() as int]@ == name);
                    } else {
                        assert(listed(order, name));
                        let i = choose|i: int|
                            0 <= i < order.len() && (#[trigger] order[i])@ == name;
                        assert(full[i]@ == name);
                    }
                }
            }
        }
        while self.page_binding_order.len() > MAX_PAGE_BINDINGS_PER_SESSION
            invariant
                0 <= dropped <= full.len(),
                self.page_binding_order@ == full.skip(dropped),
                dropped > 0 ==> full.len() - dropped >= MAX_PAGE_BINDINGS_PER_SESSION,
                unbound(self.page_bindings@, self.page_binding_order@) == unbound(bound, full),
                old(self).wf() ==> self.page_bindings.wf() && (forall|name: Seq<char>| #[trigger]
                    self.page_bindings@.contains_key(name) ==> listed(
                        self.page_binding_order@,
                        name,
                    )),
                *self == (Session {
                    page_bindings: self.page_bindings,
                    page_binding_order: self.page_binding_order,
                    ..*old(self)
                }),
            decreases self.page_binding_order.len(),
        {
            let ghost order = self.page_binding_order@;
            let ghost held = self.page_bindings@;
            let oldest = self.page_binding_order.remove(0);
            self.page_bindings.remove(oldest.as_str());
            proof {
                assert(order.remove(0) =~= order.drop_first());
                assert(full.skip(dropped).remove(0) =~= full.skip(dropped + 1));
                dropped = dropped + 1;
                if old(self).wf() {
                    assert forall|name: Seq<char>| #[trigger]
                        self.page_bindings@.contains_key(name) implies listed(
                        self.page_binding_order@,
                        name,
                    ) by {
                        assert(listed(order, name));
                        let i = choose|i: int|
                            0 <= i < order.len() && (#[trigger] order[i])@ == name;
                        assert(self.page_binding_order@[i - 1]@ == name);
                    }
                }
            }
        }
    }
}

/// One more entry of a list that is being filtered in place.
proof fn filtering_one_more<T>(
    before: Seq<T>,
    here: Seq<T>,
    at: int,
    done: int,
    keep: spec_fn(T) -> bool,
)
    requires
        0 <= at < here.len(),
        0 <= done <= before.len(),
        here.take(at) == before.take(done).filter(keep),
        here.skip(at) == before.skip(done),
    ensures
        done < before.len(),
        here[at] == before[done],
        here.skip(at + 1) == before.skip(done + 1),
        keep(here[at]) ==> here.take(at + 1) == before.take(done + 1).filter(keep),
        !keep(here[at]) ==> here.take(at) == before.take(done + 1).filter(keep),
        here.remove(at).take(at) == here.take(at),
        here.remove(at).skip(at) == here.skip(at + 1),
{
    assert(here.skip(at).len() == before.skip(done).len());
    assert(here.skip(at).len() == here.len() - at);
    assert(before.skip(done).len() == before.len() - done);
    assert(here.skip(at)[0] == here[at]);
    assert(before.skip(done)[0] == before[done]);
    assert(here.skip(at + 1) =~= here.skip(at).drop_first());
    assert(before.skip(done + 1) =~= before.skip(done).drop_first());
    assert(before.take(done + 1) =~= before.take(done).push(before[done]));
    assert(before.take(done + 1).drop_last() =~= before.take(done));
    assert(here.take(at + 1) =~= here.take(at).push(here[at]));
    assert(here.remove(at).take(at) =~= here.take(at));
    assert(here.remove(at).skip(at) =~= here.skip(at + 1));
    reveal(Seq::filter);
}

proof fn filtering_keeps_keys_apart(
    pages: Seq<(PageKey, BrowsePage)>,
    keep: spec_fn((PageKey, BrowsePage)) -> bool,
)
    requires
        forall|i: int, j: int|
            0 <= i < j < pages.len() ==> (#[trigger] pages[i]).0@ != (#[trigger] pages[j]).0@,
    ensures
        forall|i: int, j: int|
            0 <= i < j < pages.filter(keep).len() ==> (#[trigger] pages.filter(keep)[i]).0@ != (
            #[trigger] pages.filter(keep)[j]).0@,
        pages.filter(keep).len() <= pages.len(),
        forall|i: int|
            0 <= i < pages.filter(keep).len() ==> pages.contains(
                #[trigger] pages.filter(keep)[i],
            ),
    decreases pages.len(),
{
    reveal(Seq::filter);
    if pages.len() > 0 {
        let front = pages.drop_last();
        filtering_keeps_keys_apart(front, keep);
        let kept = front.filter(keep);
        assert forall|i: int| 0 <= i < kept.len() implies pages.contains(#[trigger] kept[i])
            && kept[i].0@ != pages.last().0@ by {
            assert(front.contains(kept[i]));
            let k = choose|k: int| 0 <= k < front.len() && front[k] == kept[i];
            assert(pages[k] == kept[i]);
        }
        if keep(pages.last()) {
            assert(pages.contains(pages.last())) by {
                assert(pages[pages.len() - 1] == pages.last());
            }
        }
    }
}

/// Of a list that may grow to a limit the newest stay, in their order: all of
/// them up to the limit, and as many as it allows beyond.
pub proof fn the_newest_stay<T>(entries: Seq<T>, limit: nat, i: int)
    ensures
        entries.len() <= limit ==> newest(entries, limit) == entries,
        entries.len() > limit ==> newest(entries, limit).len() == limit,
        entries.len() > limit && 0 <= i < limit ==> newest(entries, limit)[i] == entries[
            entries.len() - limit + i],
{
}

/// A cached page is the only one under its key, and the newest of all.
pub proof fn pages_are_cached_once(
    pages: Seq<(PageKey, BrowsePage)>,
    key: PageKey,
    page: BrowsePage,
    i: int,
)
    requires
        0 <= i < with_page(pages, key, page).len(),
    ensures
        with_page(pages, key, page).last() == (key, page),
        i < with_page(pages, key, page).len() - 1 ==> with_page(pages, key, page)[i].0@ != key@,
        with_page(pages, key, page).len() <= 256,
{
    let keep = of_other_keys(key@);
    let kept = pages.filter(keep);
    let full = kept.push((key, page));
    let left = with_page(pages, key, page);
    if i < left.len() - 1 {
        let at = i + full.len() - left.len();
        assert(left[i] == kept[at]);
        pages.lemma_filter_pred(keep, at);
    }
}

/// Cursors beyond the limit lose their meaning, the oldest first, and nobody
/// else does.
pub proof fn old_cursors_lose_their_meaning(
    bindings: Map<Seq<char>, PageBinding>,
    order: Seq<String>,
    token: Seq<char>,
)
    ensures
        order.len() <= 256 ==> unbound(bindings, order) == bindings,
        unbound(bindings, order).contains_key(token) ==> bindings.contains_key(token)
            && unbound(bindings, order)[token] == bindings[token],
        unbound(bindings, order).contains_key(token) <==> bindings.contains_key(token) && forall|
            i: int,
        |
            0 <= i < order.len() - 256 ==> (#[trigger] order[i])@ != token,
    decreases order.len(),
{
    if order.len() > 256 {
        let rest = order.drop_first();
        old_cursors_lose_their_meaning(bindings.remove(order[0]@), rest, token);
        if forall|i: int| 0 <= i < order.len() - 256 ==> (#[trigger] order[i])@ != token {
            assert(order[0]@ != token);
            assert forall|i: int| 0 <= i < rest.len() - 256 implies (
            #[trigger] rest[i])@ != token by {
                assert(order[i + 1]@ != token);
            }
        }
        if unbound(bindings, order).contains_key(token) {
            assert forall|i: int| 0 <= i < order.len() - 256 implies (
            #[trigger] order[i])@ != token by {
                if i > 0 {
                    assert(rest[i - 1]@ != token);
                }
            }
        }
    }
}

/// Forgetting a parent keeps the cursors and the pages of every other.
pub proof fn other_parents_are_kept(
    pages: Seq<(PageKey, BrowsePage)>,
    bindings: Map<Seq<char>, PageBinding>,
    parent: Option<Seq<char>>,
    at: int,
    token: Seq<char>,
)
    requires
        0 <= at < pages.len(),
    ensures
        pages[at].0@.parent_node_key != parent ==> pages.filter(of_other_parents(parent)).contains(
            pages[at],
        ),
        bindings_of_others(bindings, parent).contains_key(token) <==> bindings.contains_key(token)
            && crate::text::optional_view(bindings[token].parent_node_key) != parent,
{
    if pages[at].0@.parent_node_key != parent {
        pages.lemma_filter_contains(of_other_parents(parent), at);
    }
}

/// Pages that say the same have the same nodes in the same order, come with the
/// same cursor and tell the same of their namespace.
pub proof fn same_pages_say_the_same(a: BrowsePage, b: BrowsePage)
    requires
        same_page(a, b),
    ensures
        a.nodes@ == b.nodes@,
        a.next_page_token == b.next_page_token,
        a.complete == b.complete,
        a.organization == b.organization && a.source == b.source,
        a.warning == b.warning,
{
}

} // verus!
