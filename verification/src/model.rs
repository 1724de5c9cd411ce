//! The page model: the aggregate owning the page and section registries, the
//! hierarchy and content maps, the singleton resource store, and the
//! per-page data stores.

use vstd::prelude::*;

use crate::entity::{Arena, Entity};
use crate::sparse::SparseMap;
use crate::store::TypeStore;

verus! {

/// Domain tag of every page handle.
pub const PAGE_DOMAIN: u64 = 0;

/// Domain tag of every section handle.
pub const SECTION_DOMAIN: u64 = 1;

/// Per-page record: human-facing texts, an icon reference, and the parent
/// page, if the page was registered under one.
#[derive(Debug)]
pub struct Meta {
    pub name: String,
    pub icon: String,
    pub title: String,
    pub description: String,
    pub parent: Option<Entity>,
}

impl Meta {
    /// A record with the given name and icon, empty texts, and no parent.
    pub fn new(name: &str, icon: &str) -> (r: Meta)
        ensures
            r.name@ == name@,
            r.icon@ == icon@,
            r.title@ == Seq::<char>::empty(),
            r.description@ == Seq::<char>::empty(),
            r.parent is None,
    {
        Meta {
            name: name.to_owned(),
            icon: icon.to_owned(),
            title: String::new(),
            description: String::new(),
            parent: None,
        }
    }

    /// The same record with the title replaced.
    pub fn title(self, title: &str) -> (r: Meta)
        ensures
            r == (Meta { title: r.title, ..self }),
            r.title@ == title@,
    {
        Meta { title: title.to_owned(), ..self }
    }

    /// The same record with the description replaced.
    pub fn description(self, description: &str) -> (r: Meta)
        ensures
            r == (Meta { description: r.description, ..self }),
            r.description@ == description@,
    {
        Meta { description: description.to_owned(), ..self }
    }
}

/// A unit of searchable content belonging to one page.
#[derive(Debug)]
pub struct Section {
    pub title: String,
}

impl Section {
    /// A section holding the given text.
    pub fn new(title: &str) -> (r: Section)
        ensures
            r.title@ == title@,
    {
        Section { title: title.to_owned() }
    }

    /// Whether this section's text matches the search rule.
    pub fn matches_search(&self, rule: &crate::pattern::SearchRule) -> (r: bool)
        ensures
            r == crate::pattern::regex_found(rule.pat(), self.title@),
    {
        rule.is_match(self.title.as_str())
    }
}

/// What a page definition supplies at registration: its metadata (with no
/// parent set; the registrar assigns one), its searchable sections, if any,
/// and the key and initial value of its model-wide singleton resource.
pub struct PageDef<R> {
    pub meta: Meta,
    pub content: Option<Vec<Section>>,
    pub resource_key: u64,
    pub resource_init: R,
}

/// The page model aggregate. `D` is the payload type of per-page data and
/// `R` the payload type of singleton resources; both stores are keyed by a
/// caller-chosen type discriminator.
pub struct Model<D, R> {
    pub(crate) pages: Arena<Meta>,
    pub(crate) sections: Arena<Section>,
    pub(crate) content: SparseMap<Vec<Entity>>,
    pub(crate) hierarchy: SparseMap<Vec<Entity>>,
    pub(crate) resources: TypeStore<R>,
    pub(crate) storage: TypeStore<SparseMap<D>>,
}

impl<D, R> Model<D, R> {
    /// Internal consistency: the parts are consistent, the two handle
    /// domains are distinct, per-page data is held only for live pages,
    /// content names live pages and live sections, and every child recorded
    /// in the hierarchy is a live page whose metadata points back at its
    /// parent.
    pub closed spec fn wf(self) -> bool {
        &&& self.pages.wf()
        &&& self.sections.wf()
        &&& self.content.wf()
        &&& self.hierarchy.wf()
        &&& self.resources.wf()
        &&& self.storage.wf()
        &&& self.pages.dom() == PAGE_DOMAIN
        &&& self.sections.dom() == SECTION_DOMAIN
        &&& forall|k: u64| #[trigger] self.storage.contains_key(k) ==> self.storage.value_of(k).wf()
        &&& forall|k: u64, e: Entity|
            self.storage.contains_key(k) && (#[trigger] self.storage.value_of(k).contains_key(e))
                ==> self.pages.valid(e)
        &&& forall|p: Entity| #[trigger] self.content.contains_key(p) ==> self.pages.valid(p)
        &&& forall|p: Entity, i: int|
            self.content.contains_key(p) && 0 <= i < self.content.value_of(p)@.len()
                ==> self.sections.valid(#[trigger] self.content.value_of(p)@[i])
        &&& forall|p: Entity| #[trigger] self.hierarchy.contains_key(p) ==> self.pages.valid(p)
        &&& forall|p: Entity, i: int|
            self.hierarchy.contains_key(p) && 0 <= i < self.hierarchy.value_of(p)@.len() ==> {
                &&& self.pages.valid(#[trigger] self.hierarchy.value_of(p)@[i])
                &&& self.pages.value_at(self.hierarchy.value_of(p)@[i]).parent == Some(p)
            }
    }

    /// Whether `e` is a live page.
    pub closed spec fn has_page(self, e: Entity) -> bool {
        self.pages.valid(e)
    }

    /// The metadata of a live page.
    pub closed spec fn page_meta(self, e: Entity) -> Meta {
        self.pages.value_at(e)
    }

    /// Whether `e` is a live section.
    pub closed spec fn has_section(self, e: Entity) -> bool {
        self.sections.valid(e)
    }

    /// The section stored under a live section handle.
    pub closed spec fn section_at(self, e: Entity) -> Section {
        self.sections.value_at(e)
    }

    /// Whether page `p` carries a content record.
    pub closed spec fn has_content(self, p: Entity) -> bool {
        self.content.contains_key(p)
    }

    /// The section handles of page `p`'s content, in order.
    pub closed spec fn content_of(self, p: Entity) -> Seq<Entity> {
        self.content.value_of(p)@
    }

    /// The pages that carry content, in the content map's iteration order.
    pub closed spec fn content_keys(self) -> Seq<Entity> {
        self.content.keys()
    }

    /// Whether page `p` has directly registered children.
    pub closed spec fn has_children(self, p: Entity) -> bool {
        self.hierarchy.contains_key(p)
    }

    /// The children of page `p`, in registration order.
    pub closed spec fn children_of(self, p: Entity) -> Seq<Entity> {
        self.hierarchy.value_of(p)@
    }

    /// Whether a resource is registered under `k`.
    pub closed spec fn has_resource(self, k: u64) -> bool {
        self.resources.contains_key(k)
    }

    /// The resource registered under `k`.
    pub closed spec fn resource_at(self, k: u64) -> R {
        self.resources.value_of(k)
    }

    /// Whether page `e` carries data under key `k`.
    pub closed spec fn has_data(self, k: u64, e: Entity) -> bool {
        self.storage.contains_key(k) && self.storage.value_of(k).contains_key(e)
    }

    /// The data page `e` carries under key `k`.
    pub closed spec fn data_at(self, k: u64, e: Entity) -> D {
        self.storage.value_of(k).value_of(e)
    }

    /// The pages and their metadata agree between `self` and `o`.
    pub open spec fn same_pages(self, o: Self) -> bool {
        &&& forall|e: Entity| #[trigger] o.has_page(e) == self.has_page(e)
        &&& forall|e: Entity| self.has_page(e) ==> #[trigger] o.page_meta(e) == self.page_meta(e)
    }

    /// The sections agree between `self` and `o`.
    pub open spec fn same_sections(self, o: Self) -> bool {
        &&& forall|e: Entity| #[trigger] o.has_section(e) == self.has_section(e)
        &&& forall|e: Entity|
            self.has_section(e) ==> #[trigger] o.section_at(e) == self.section_at(e)
    }

    /// The content records agree between `self` and `o`.
    pub open spec fn same_content(self, o: Self) -> bool {
        &&& o.content_keys() == self.content_keys()
        &&& forall|p: Entity| #[trigger] o.has_content(p) == self.has_content(p)
        &&& forall|p: Entity|
            self.has_content(p) ==> #[trigger] o.content_of(p) == self.content_of(p)
    }

    /// The hierarchy entries agree between `self` and `o`.
    pub open spec fn same_hierarchy(self, o: Self) -> bool {
        &&& forall|p: Entity| #[trigger] o.has_children(p) == self.has_children(p)
        &&& forall|p: Entity|
            self.has_children(p) ==> #[trigger] o.children_of(p) == self.children_of(p)
    }

    /// The singleton resources agree between `self` and `o`.
    pub open spec fn same_resources(self, o: Self) -> bool {
        &&& forall|k: u64| #[trigger] o.has_resource(k) == self.has_resource(k)
        &&& forall|k: u64|
            self.has_resource(k) ==> #[trigger] o.resource_at(k) == self.resource_at(k)
    }

    /// The per-page data stores agree between `self` and `o`.
    pub open spec fn same_data(self, o: Self) -> bool {
        &&& forall|k: u64, e: Entity| #[trigger] o.has_data(k, e) == self.has_data(k, e)
        &&& forall|k: u64, e: Entity|
            self.has_data(k, e) ==> #[trigger] o.data_at(k, e) == self.data_at(k, e)
    }

    /// The hierarchy is consistent: every child recorded under a parent is
    /// a live page whose metadata points back at that parent, and the
    /// parent itself is live.
    pub proof fn lemma_hierarchy_consistent(self, p: Entity, i: int)
        requires
            self.wf(),
            self.has_children(p),
            0 <= i < self.children_of(p).len(),
        ensures
            self.has_page(p),
            self.has_page(self.children_of(p)[i]),
            self.page_meta(self.children_of(p)[i]).parent == Some(p),
    {
        assert(self.pages.valid(self.hierarchy.value_of(p)@[i]));
    }

    /// Content is consistent: a page with a content record is live, and so
    /// is every section the record names.
    pub proof fn lemma_content_sections_live(self, p: Entity, i: int)
        requires
            self.wf(),
            self.has_content(p),
            0 <= i < self.content_of(p).len(),
        ensures
            self.has_page(p),
            self.has_section(self.content_of(p)[i]),
    {
        assert(self.sections.valid(self.content.value_of(p)@[i]));
    }

    /// Per-page data is held only for live pages: a stale handle never
    /// carries data.
    pub proof fn lemma_data_for_live_pages(self, k: u64, e: Entity)
        requires
            self.wf(),
            self.has_data(k, e),
        ensures
            self.has_page(e),
    {
    }

    /// Check if a page exists in the model.
    pub fn contains_item(&self, id: Entity) -> (r: bool)
        ensures
            r == self.has_page(id),
    {
        self.pages.contains(id)
    }

    /// The metadata of a page, or nothing for a stale handle.
    pub fn meta(&self, id: Entity) -> (r: Option<&Meta>)
        ensures
            match r {
                Some(m) => self.has_page(id) && *m == self.page_meta(id),
                None => !self.has_page(id),
            },
    {
        self.pages.get(id)
    }

    /// The section stored under a handle, or nothing for a stale handle.
    pub fn section(&self, id: Entity) -> (r: Option<&Section>)
        ensures
            match r {
                Some(s) => self.has_section(id) && *s == self.section_at(id),
                None => !self.has_section(id),
            },
    {
        self.sections.get(id)
    }

    /// Returns the content of a page, if it has any.
    pub fn content(&self, page: Entity) -> (r: Option<&Vec<Entity>>)
        requires
            self.wf(),
        ensures
            match r {
                Some(c) => self.has_content(page) && c@ == self.content_of(page),
                None => !self.has_content(page),
            },
    {
        self.content.get(page)
    }

    /// Returns the sub-pages of a page, if it has any.
    pub fn sub_pages(&self, page: Entity) -> (r: Option<&Vec<Entity>>)
        requires
            self.wf(),
        ensures
            match r {
                Some(c) => self.has_children(page) && c@ == self.children_of(page),
                None => !self.has_children(page),
            },
    {
        self.hierarchy.get(page)
    }

    /// How many pages carry content.
    pub(crate) fn content_len(&self) -> (r: usize)
        ensures
            r == self.content_keys().len(),
    {
        self.content.len()
    }

    /// The page and section handles at position `o` of the content map's
    /// iteration order. Every section handle returned is live.
    pub(crate) fn content_entry(&self, o: usize) -> (r: (Entity, &Vec<Entity>))
        requires
            self.wf(),
            o < self.content_keys().len(),
        ensures
            r.0 == self.content_keys()[o as int],
            self.has_content(r.0),
            r.1@ == self.content_of(r.0),
            forall|j: int| 0 <= j < r.1@.len() ==> self.has_section(#[trigger] r.1@[j]),
    {
        let p = self.content.pair_at(o);
        (p.0, p.1)
    }

    /// Get an immutable reference to data associated with a page.
    pub fn data(&self, key: u64, id: Entity) -> (r: Option<&D>)
        requires
            self.wf(),
        ensures
            match r {
                Some(v) => self.has_data(key, id) && *v == self.data_at(key, id),
                None => !self.has_data(key, id),
            },
    {
        match self.storage.get(key) {
            Some(m) => m.get(id),
            None => None,
        }
    }

    pub fn resource(&self, key: u64) -> (r: Option<&R>)
        requires
            self.wf(),
        ensures
            match r {
                Some(v) => self.has_resource(key) && *v == self.resource_at(key),
                None => !self.has_resource(key),
            },
    {
        self.resources.get(key)
    }

    /// A mutable reference to the resource under `key`, or nothing if none
    /// was registered. Everything else is left as it was, and a later read
    /// of the resource sees the value the caller leaves behind.
    pub fn resource_mut(&mut self, key: u64) -> (r: Option<&mut R>)
        requires
            old(self).wf(),
        ensures
            final(self).wf(),
            old(self).same_pages(*final(self)),
            old(self).same_sections(*final(self)),
            old(self).same_content(*final(self)),
            old(self).same_hierarchy(*final(self)),
            old(self).same_data(*final(self)),
            forall|k: u64|
                #[trigger] final(self).has_resource(k) == old(self).has_resource(k),
            forall|k: u64|
                k != key && old(self).has_resource(k) ==> #[trigger] final(self).resource_at(k)
                    == old(self).resource_at(k),
            match r {
                Some(v) => {
                    &&& old(self).has_resource(key)
                    &&& *v == old(self).resource_at(key)
                    &&& final(self).resource_at(key) == *final(v)
                },
                None => {
                    &&& !old(self).has_resource(key)
                    &&& *final(self) == *old(self)
                },
            },
    {
        self.resources.get_mut(key)
    }

    /// Registers `init` as the singleton resource under `key` iff none is
    /// registered yet; a second registration leaves the model exactly as it
    /// was, so default construction happens at most once per key.
    pub fn resource_register(&mut self, key: u64, init: R)
        requires
            old(self).wf(),
        ensures
            final(self).wf(),
            old(self).same_pages(*final(self)),
            old(self).same_sections(*final(self)),
            old(self).same_content(*final(self)),
            old(self).same_hierarchy(*final(self)),
            old(self).same_data(*final(self)),
            final(self).has_resource(key),
            old(self).has_resource(key) ==> *final(self) == *old(self),
            !old(self).has_resource(key) ==> final(self).resource_at(key) == init,
            forall|k: u64|
                k != key ==> #[trigger] final(self).has_resource(k) == old(self).has_resource(k),
            forall|k: u64|
                k != key && old(self).has_resource(k) ==> #[trigger] final(self).resource_at(k)
                    == old(self).resource_at(k),
    {
        self.resources.register(key, init);
    }

    /// Associates data with the item: stores `value` for page `id` under
    /// `key`, overwriting any earlier value. A stale or foreign page handle
    /// leaves the model exactly as it was; data set for one page is never
    /// observable through another.
    pub fn data_set(&mut self, key: u64, id: Entity, value: D)
        requires
            old(self).wf(),
        ensures
            final(self).wf(),
            !old(self).has_page(id) ==> *final(self) == *old(self),
            old(self).same_pages(*final(self)),
            old(self).same_sections(*final(self)),
            old(self).same_content(*final(self)),
            old(self).same_hierarchy(*final(self)),
            old(self).same_resources(*final(self)),
            old(self).has_page(id) ==> {
                &&& final(self).has_data(key, id)
                &&& final(self).data_at(key, id) == value
            },
            forall|k: u64, e: Entity|
                !(k == key && e == id) ==> #[trigger] final(self).has_data(k, e) == old(self).has_data(k, e),
            forall|k: u64, e: Entity|
                !(k == key && e == id) && old(self).has_data(k, e) ==> #[trigger] final(self).data_at(k, e) == old(self).data_at(k, e),
    {
        if !self.contains_item(id) {
            return ;
        }
        match self.storage.get_mut(key) {
            Some(m) => {
                m.insert(id, value);
            }
            None => {
                let mut m = SparseMap::<D>::new();
                m.insert(id, value);
                self.storage.register(key, m);
            }
        }
    }

    /// Get a mutable reference to data associated with a page, or nothing if
    /// no data was ever set for it under `key`. Everything else is left as
    /// it was.
    pub fn data_mut(&mut self, key: u64, id: Entity) -> (r: Option<&mut D>)
        requires
            old(self).wf(),
        ensures
            final(self).wf(),
            old(self).same_pages(*final(self)),
            old(self).same_sections(*final(self)),
            old(self).same_content(*final(self)),
            old(self).same_hierarchy(*final(self)),
            old(self).same_resources(*final(self)),
            forall|k: u64, e: Entity|
                #[trigger] final(self).has_data(k, e) == old(self).has_data(k, e),
            forall|k: u64, e: Entity|
                !(k == key && e == id) && old(self).has_data(k, e) ==> #[trigger] final(self).data_at(k, e) == old(self).data_at(k, e),
            match r {
                Some(v) => {
                    &&& old(self).has_data(key, id)
                    &&& *v == old(self).data_at(key, id)
                    &&& final(self).data_at(key, id) == *final(v)
                },
                None => !old(self).has_data(key, id),
            },
    {
        match self.storage.get_mut(key) {
            Some(m) => m.get_mut(id),
            None => None,
        }
    }

    /// Removes a specific data key from the item; absence is not an error.
    pub fn data_remove(&mut self, key: u64, id: Entity)
        requires
            old(self).wf(),
        ensures
            final(self).wf(),
            old(self).same_pages(*final(self)),
            old(self).same_sections(*final(self)),
            old(self).same_content(*final(self)),
            old(self).same_hierarchy(*final(self)),
            old(self).same_resources(*final(self)),
            !final(self).has_data(key, id),
            forall|k: u64, e: Entity|
                !(k == key && e == id) ==> #[trigger] final(self).has_data(k, e) == old(self).has_data(k, e),
            forall|k: u64, e: Entity|
                !(k == key && e == id) && old(self).has_data(k, e) ==> #[trigger] final(self).data_at(k, e) == old(self).data_at(k, e),
    {
        match self.storage.get_mut(key) {
            Some(m) => {
                m.remove(id);
            }
            None => {}
        }
    }
}

/// Allocates one section handle per given section, in order. The handles
/// are fresh, pairwise distinct, and live afterwards; earlier occupants of
/// the arena are untouched.
fn alloc_sections(arena: &mut Arena<Section>, secs: Vec<Section>) -> (es: Vec<Entity>)
    requires
        old(arena).wf(),
    ensures
        final(arena).wf(),
        final(arena).dom() == old(arena).dom(),
        es@.len() == secs@.len(),
        forall|i: int|
            0 <= i < es@.len() ==> {
                &&& final(arena).valid(#[trigger] es@[i])
                &&& !old(arena).valid(es@[i])
                &&& final(arena).value_at(es@[i]) == secs@[i]
            },
        forall|i: int, j: int| 0 <= i < j < es@.len() ==> es@[i] != es@[j],
        forall|e: Entity|
            old(arena).valid(e) ==> #[trigger] final(arena).valid(e) && final(arena).value_at(e)
                == old(arena).value_at(e),
{
    let ghost orig = secs@;
    let mut rest = secs;
    let mut es: Vec<Entity> = Vec::new();
    while rest.len() > 0
        invariant
            arena.wf(),
            arena.dom() == old(arena).dom(),
            es@.len() + rest@.len() == orig.len(),
            rest@ == orig.subrange(es@.len() as int, orig.len() as int),
            forall|i: int|
                0 <= i < es@.len() ==> {
                    &&& arena.valid(#[trigger] es@[i])
                    &&& !old(arena).valid(es@[i])
                    &&& arena.value_at(es@[i]) == orig[i]
                },
            forall|i: int, j: int| 0 <= i < j < es@.len() ==> es@[i] != es@[j],
            forall|e: Entity|
                old(arena).valid(e) ==> #[trigger] arena.valid(e) && arena.value_at(e) == old(
                    arena,
                ).value_at(e),
        decreases rest@.len(),
    {
        let s = rest.remove(0);
        let e = arena.insert(s);
        es.push(e);
        proof {
            assert(rest@ =~= orig.subrange(es@.len() as int, orig.len() as int));
        }
    }
    es
}

impl<D, R> Model<D, R> {
    /// Registers a new page in the model: allocates a fresh page handle for
    /// the definition's metadata, allocates and attaches its content
    /// sections if it declares any, registers its singleton resource if
    /// none is present under that key yet, and returns an insert cursor
    /// bound to the new page.
    pub fn register(&mut self, def: PageDef<R>) -> (r: Insert)
        requires
            old(self).wf(),
            def.meta.parent is None,
        ensures
            final(self).wf(),
            final(self).has_page(r.id),
            !old(self).has_page(r.id),
            final(self).page_meta(r.id) == def.meta,
            forall|e: Entity|
                e != r.id ==> #[trigger] final(self).has_page(e) == old(self).has_page(e),
            forall|e: Entity|
                e != r.id && old(self).has_page(e) ==> #[trigger] final(self).page_meta(e) == old(self).page_meta(e),
            old(self).same_hierarchy(*final(self)),
            old(self).same_data(*final(self)),
            final(self).has_resource(def.resource_key),
            !old(self).has_resource(def.resource_key) ==> final(self).resource_at(def.resource_key)
                == def.resource_init,
            old(self).has_resource(def.resource_key) ==> old(self).same_resources(*final(self)),
            forall|k: u64|
                k != def.resource_key ==> #[trigger] final(self).has_resource(k) == old(self).has_resource(k),
            forall|k: u64|
                k != def.resource_key && old(self).has_resource(k) ==> #[trigger] final(self).resource_at(k) == old(self).resource_at(k),
            forall|s: Entity|
                old(self).has_section(s) ==> #[trigger] final(self).has_section(s) && final(self).section_at(s) == old(self).section_at(s),
            def.content is None ==> old(self).same_content(*final(self)) && !final(self).has_content(r.id) && old(self).same_sections(*final(self)),
            def.content is Some ==> {
                let secs = def.content->Some_0@;
                let es = final(self).content_of(r.id);
                &&& final(self).has_content(r.id)
                &&& final(self).content_keys() == old(self).content_keys().push(r.id)
                &&& es.len() == secs.len()
                &&& forall|i: int|
                    0 <= i < es.len() ==> final(self).has_section(#[trigger] es[i]) && !old(self).has_section(es[i]) && final(self).section_at(es[i]) == secs[i]
                &&& forall|i: int, j: int| 0 <= i < j < es.len() ==> es[i] != es[j]
                &&& forall|p: Entity|
                    p != r.id ==> #[trigger] final(self).has_content(p) == old(self).has_content(p)
                &&& forall|p: Entity|
                    p != r.id && old(self).has_content(p) ==> #[trigger] final(self).content_of(p)
                        == old(self).content_of(p)
            },
    {
        let PageDef { meta, content, resource_key, resource_init } = def;
        let id = self.pages.insert(meta);
        match content {
            Some(secs) => {
                let es = alloc_sections(&mut self.sections, secs);
                self.content.insert(id, es);
            }
            None => {}
        }
        self.resources.register(resource_key, resource_init);
        Insert { id }
    }
}

/// A short-lived cursor bound to a freshly registered page, through which a
/// caller chains child pages and content onto that page.
pub struct Insert {
    pub id: Entity,
}

impl Insert {
    /// The page this cursor is bound to, ending the chain.
    pub fn id(self) -> (r: Entity)
        ensures
            r == self.id,
    {
        self.id
    }

    /// Overwrites the cursor's page's content record with freshly allocated
    /// sections, and keeps the cursor.
    pub fn content<D, R>(self, model: &mut Model<D, R>, secs: Vec<Section>) -> (r: Insert)
        requires
            old(model).wf(),
            old(model).has_page(self.id),
        ensures
            r.id == self.id,
            final(model).wf(),
            old(model).same_pages(*final(model)),
            old(model).same_hierarchy(*final(model)),
            old(model).same_resources(*final(model)),
            old(model).same_data(*final(model)),
            forall|s: Entity|
                old(model).has_section(s) ==> #[trigger] final(model).has_section(s) && final(model).section_at(s) == old(model).section_at(s),
            ({
                let es = final(model).content_of(self.id);
                &&& final(model).has_content(self.id)
                &&& es.len() == secs@.len()
                &&& forall|i: int|
                    0 <= i < es.len() ==> final(model).has_section(#[trigger] es[i]) && !old(model).has_section(es[i]) && final(model).section_at(es[i]) == secs@[i]
                &&& forall|i: int, j: int| 0 <= i < j < es.len() ==> es[i] != es[j]
            }),
            forall|p: Entity|
                p != self.id ==> #[trigger] final(model).has_content(p) == old(model).has_content(
                    p,
                ),
            forall|p: Entity|
                p != self.id && old(model).has_content(p) ==> #[trigger] final(model).content_of(p)
                    == old(model).content_of(p),
            old(model).has_content(self.id) ==> final(model).content_keys() == old(model).content_keys(),
            !old(model).has_content(self.id) ==> final(model).content_keys() == old(model).content_keys().push(self.id),
    {
        let es = alloc_sections(&mut model.sections, secs);
        model.content.insert(self.id, es);
        self
    }

    /// Adds a page and associates it with its parent page: allocates a
    /// child whose metadata's parent is the cursor's page, attaches the
    /// child's content and registers its resource as at top-level
    /// registration, and appends the child to the parent's hierarchy entry.
    /// The cursor stays bound to the parent, so chained calls add siblings.
    pub fn sub_page<D, R>(self, model: &mut Model<D, R>, def: PageDef<R>) -> (r: Insert)
        requires
            old(model).wf(),
            old(model).has_page(self.id),
            def.meta.parent is None,
        ensures
            r.id == self.id,
            final(model).wf(),
            final(model).has_children(self.id),
            final(model).children_of(self.id).len() >= 1,
            ({
                let c = final(model).children_of(self.id).last();
                &&& !old(model).has_page(c)
                &&& final(model).has_page(c)
                &&& final(model).page_meta(c) == (Meta { parent: Some(self.id), ..def.meta })
                &&& forall|e: Entity|
                    e != c ==> #[trigger] final(model).has_page(e) == old(model).has_page(e)
                &&& forall|e: Entity|
                    e != c && old(model).has_page(e) ==> #[trigger] final(model).page_meta(e)
                        == old(model).page_meta(e)
                &&& final(model).children_of(self.id) == (if old(model).has_children(self.id) {
                    old(model).children_of(self.id).push(c)
                } else {
                    seq![c]
                })
                &&& forall|p: Entity|
                    p != self.id ==> #[trigger] final(model).has_children(p) == old(model).has_children(p)
                &&& forall|p: Entity|
                    p != self.id && old(model).has_children(p) ==> #[trigger] final(model).children_of(p) == old(model).children_of(p)
                &&& old(model).same_data(*final(model))
                &&& final(model).has_resource(def.resource_key)
                &&& !old(model).has_resource(def.resource_key) ==> final(model).resource_at(
                    def.resource_key,
                ) == def.resource_init
                &&& old(model).has_resource(def.resource_key) ==> old(model).same_resources(
                    *final(model),
                )
                &&& forall|k: u64|
                    k != def.resource_key ==> #[trigger] final(model).has_resource(k) == old(model).has_resource(k)
                &&& forall|k: u64|
                    k != def.resource_key && old(model).has_resource(k) ==> #[trigger] final(model).resource_at(k) == old(model).resource_at(k)
                &&& forall|s: Entity|
                    old(model).has_section(s) ==> #[trigger] final(model).has_section(s) && final(model).section_at(s) == old(model).section_at(s)
                &&& def.content is None ==> old(model).same_content(*final(model)) && !final(model).has_content(c) && old(model).same_sections(*final(model))
                &&& def.content is Some ==> {
                    let secs = def.content->Some_0@;
                    let es = final(model).content_of(c);
                    &&& final(model).has_content(c)
                    &&& final(model).content_keys() == old(model).content_keys().push(c)
                    &&& es.len() == secs.len()
                    &&& forall|i: int|
                        0 <= i < es.len() ==> final(model).has_section(#[trigger] es[i]) && !old(model).has_section(es[i]) && final(model).section_at(es[i]) == secs[i]
                    &&& forall|i: int, j: int| 0 <= i < j < es.len() ==> es[i] != es[j]
                    &&& forall|p: Entity|
                        p != c ==> #[trigger] final(model).has_content(p) == old(model).has_content(p)
                    &&& forall|p: Entity|
                        p != c && old(model).has_content(p) ==> #[trigger] final(model).content_of(p) == old(model).content_of(p)
                }
            }),
    {
        let PageDef { meta, content, resource_key, resource_init } = def;
        let child_meta = Meta { parent: Some(self.id), ..meta };
        let child = model.pages.insert(child_meta);
        match content {
            Some(secs) => {
                let es = alloc_sections(&mut model.sections, secs);
                model.content.insert(child, es);
            }
            None => {}
        }
        model.resources.register(resource_key, resource_init);
        let mut appended = false;
        match model.hierarchy.get_mut(self.id) {
            Some(v) => {
                v.push(child);
                appended = true;
            }
            None => {}
        }
        if !appended {
            let mut v: Vec<Entity> = Vec::new();
            v.push(child);
            model.hierarchy.insert(self.id, v);
        }
        Insert { id: self.id }
    }
}

impl<D, R> Default for Model<D, R> {
    /// An empty model: no pages, no sections, no content, no hierarchy, no
    /// resources, no data.
    fn default() -> (r: Self)
        ensures
            r.wf(),
            forall|e: Entity| !r.has_page(e),
            forall|e: Entity| !r.has_section(e),
            forall|p: Entity| !r.has_content(p),
            r.content_keys() == Seq::<Entity>::empty(),
            forall|p: Entity| !r.has_children(p),
            forall|k: u64| !r.has_resource(k),
            forall|k: u64, e: Entity| !r.has_data(k, e),
    {
        Model {
            pages: Arena::new(PAGE_DOMAIN),
            sections: Arena::new(SECTION_DOMAIN),
            content: SparseMap::new(),
            hierarchy: SparseMap::new(),
            resources: TypeStore::new(),
            storage: TypeStore::new(),
        }
    }
}

} // verus!
