use page_model::entity::{Arena, Entity};
use page_model::model::{Meta, Model, PageDef, Section};

#[test]
fn allocator_uniqueness() {
    let mut arena: Arena<u32> = Arena::new(3);
    let mut handles: Vec<Entity> = Vec::new();
    for v in 0..5u32 {
        let e = arena.insert(v);
        assert!(arena.contains(e));
        handles.push(e);
    }
    for a in 0..handles.len() {
        for b in (a + 1)..handles.len() {
            assert_ne!(handles[a], handles[b]);
        }
    }
    for (v, e) in handles.iter().enumerate() {
        assert_eq!(arena.get(*e), Some(&(v as u32)));
    }
}

#[test]
fn allocator_stale_after_remove() {
    let mut arena: Arena<u32> = Arena::new(0);
    let e = arena.insert(7);
    assert!(arena.remove(e));
    assert!(!arena.contains(e));
    assert_eq!(arena.get(e), None);
    assert!(!arena.remove(e));
    let e2 = arena.insert(8);
    assert_ne!(e, e2);
    assert_eq!(arena.get(e), None);
    assert_eq!(arena.get(e2), Some(&8));
}

#[test]
fn allocator_domains_are_independent() {
    let mut pages: Arena<u32> = Arena::new(0);
    let mut sections: Arena<u32> = Arena::new(1);
    let p = pages.insert(1);
    let s = sections.insert(1);
    assert!(!sections.contains(p));
    assert!(!pages.contains(s));
}

#[test]
fn resource_register_exactly_once() {
    let mut model: Model<u32, u32> = Model::default();
    model.resource_register(1, 10);
    model.resource_register(1, 99);
    assert_eq!(model.resource(1), Some(&10));
    assert_eq!(model.resource(2), None);
}

#[test]
fn resource_mut_visible_to_reads() {
    let mut model: Model<u32, u32> = Model::default();
    model.resource_register(1, 10);
    if let Some(r) = model.resource_mut(1) {
        *r = 42;
    } else {
        panic!("resource must be present");
    }
    assert_eq!(model.resource(1), Some(&42));
    assert_eq!(model.resource_mut(2), None);
}

#[test]
fn data_isolation_between_pages() {
    let mut model: Model<u32, u32> = Model::default();
    let a = model
        .register(PageDef {
            meta: Meta::new("a", "icon-a"),
            content: None,
            resource_key: 0,
            resource_init: 0,
        })
        .id();
    let b = model
        .register(PageDef {
            meta: Meta::new("b", "icon-b"),
            content: None,
            resource_key: 0,
            resource_init: 0,
        })
        .id();
    model.data_set(1, a, 5);
    model.data_set(1, b, 6);
    model.data_set(2, a, 7);
    assert_eq!(model.data(1, a), Some(&5));
    assert_eq!(model.data(1, b), Some(&6));
    assert_eq!(model.data(2, a), Some(&7));
    assert_eq!(model.data(2, b), None);
}

#[test]
fn data_set_on_stale_handle_is_dropped() {
    let mut model: Model<u32, u32> = Model::default();
    let a = model
        .register(PageDef {
            meta: Meta::new("a", "icon-a"),
            content: None,
            resource_key: 0,
            resource_init: 0,
        })
        .id();
    model.data_set(1, a, 5);
    let stale = Entity { domain: 9, index: 0, generation: 0 };
    assert!(!model.contains_item(stale));
    model.data_set(1, stale, 11);
    assert_eq!(model.data(1, stale), None);
    assert_eq!(model.data(1, a), Some(&5));
}

#[test]
fn data_mut_and_remove() {
    let mut model: Model<u32, u32> = Model::default();
    let a = model
        .register(PageDef {
            meta: Meta::new("a", "icon-a"),
            content: None,
            resource_key: 0,
            resource_init: 0,
        })
        .id();
    assert_eq!(model.data_mut(1, a), None);
    model.data_set(1, a, 5);
    if let Some(v) = model.data_mut(1, a) {
        *v = 12;
    } else {
        panic!("data must be present");
    }
    assert_eq!(model.data(1, a), Some(&12));
    model.data_remove(1, a);
    assert_eq!(model.data(1, a), None);
    model.data_remove(1, a);
    model.data_remove(3, a);
    assert_eq!(model.data(1, a), None);
}

#[test]
fn hierarchy_round_trip() {
    let mut model: Model<u32, u32> = Model::default();
    let cursor = model.register(PageDef {
        meta: Meta::new("x", "icon-x"),
        content: None,
        resource_key: 0,
        resource_init: 0,
    });
    let cursor = cursor.sub_page(
        &mut model,
        PageDef {
            meta: Meta::new("y", "icon-y"),
            content: None,
            resource_key: 0,
            resource_init: 0,
        },
    );
    let cursor = cursor.sub_page(
        &mut model,
        PageDef {
            meta: Meta::new("z", "icon-z"),
            content: None,
            resource_key: 0,
            resource_init: 0,
        },
    );
    let x = cursor.id();
    let children = model.sub_pages(x).expect("parent must have children").clone();
    assert_eq!(children.len(), 2);
    let y = children[0];
    let z = children[1];
    assert_eq!(model.meta(y).unwrap().name, "y");
    assert_eq!(model.meta(z).unwrap().name, "z");
    assert_eq!(model.meta(y).unwrap().parent, Some(x));
    assert_eq!(model.meta(z).unwrap().parent, Some(x));
    assert_eq!(model.meta(x).unwrap().parent, None);
    assert!(model.sub_pages(y).is_none());
}

#[test]
fn content_association() {
    let mut model: Model<u32, u32> = Model::default();
    let with = model
        .register(PageDef {
            meta: Meta::new("with", "icon"),
            content: Some(vec![Section::new("alpha"), Section::new("beta")]),
            resource_key: 0,
            resource_init: 0,
        })
        .id();
    let without = model
        .register(PageDef {
            meta: Meta::new("without", "icon"),
            content: None,
            resource_key: 0,
            resource_init: 0,
        })
        .id();
    let sections = model.content(with).expect("content must be present").clone();
    assert_eq!(sections.len(), 2);
    assert_eq!(model.section(sections[0]).unwrap().title, "alpha");
    assert_eq!(model.section(sections[1]).unwrap().title, "beta");
    assert!(model.content(without).is_none());
}

#[test]
fn insert_content_overwrites() {
    let mut model: Model<u32, u32> = Model::default();
    let cursor = model.register(PageDef {
        meta: Meta::new("p", "icon"),
        content: Some(vec![Section::new("first")]),
        resource_key: 0,
        resource_init: 0,
    });
    let cursor = cursor.content(&mut model, vec![Section::new("second"), Section::new("third")]);
    let p = cursor.id();
    let sections = model.content(p).expect("content must be present").clone();
    assert_eq!(sections.len(), 2);
    assert_eq!(model.section(sections[0]).unwrap().title, "second");
    assert_eq!(model.section(sections[1]).unwrap().title, "third");
}

#[test]
fn meta_builder_fields() {
    let meta = Meta::new("name", "icon").title("Title").description("Description");
    assert_eq!(meta.name, "name");
    assert_eq!(meta.icon, "icon");
    assert_eq!(meta.title, "Title");
    assert_eq!(meta.description, "Description");
    assert_eq!(meta.parent, None);
}

#[test]
fn accounts_page_definition() {
    let meta = page_model::accounts::page();
    assert_eq!(meta.name, "online-accounts");
    assert_eq!(meta.icon, "goa-panel-symbolic");
    assert_eq!(meta.title, "Online Accounts");
    assert_eq!(meta.parent, None);
}

#[test]
fn default_model_is_empty() {
    let model: Model<u32, u32> = Model::default();
    let e = Entity { domain: 0, index: 0, generation: 0 };
    assert!(!model.contains_item(e));
    assert!(model.content(e).is_none());
    assert!(model.sub_pages(e).is_none());
    assert_eq!(model.resource(0), None);
    assert_eq!(model.data(0, e), None);
}
