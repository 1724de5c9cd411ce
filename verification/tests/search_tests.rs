use page_model::model::{Meta, Model, PageDef, Section};
use page_model::pattern::SearchRule;

#[test]
fn search_completeness_and_laziness() {
    let mut model: Model<u32, u32> = Model::default();
    let _p1 = model
        .register(PageDef {
            meta: Meta::new("p1", "icon"),
            content: None,
            resource_key: 0,
            resource_init: 0,
        })
        .id();
    let p2 = model
        .register(PageDef {
            meta: Meta::new("p2", "icon"),
            content: Some(vec![Section::new("alpha"), Section::new("beta")]),
            resource_key: 0,
            resource_init: 0,
        })
        .id();
    let p3 = model
        .register(PageDef {
            meta: Meta::new("p3", "icon"),
            content: Some(vec![Section::new("alphabet")]),
            resource_key: 0,
            resource_init: 0,
        })
        .id();
    let rule = SearchRule::new("alpha").expect("pattern must compile");

    let mut it = model.search();
    assert_eq!(it.position(), (0, 0));

    let first = it.next(&model, &rule).expect("first match must exist");
    assert_eq!(first.0, p2);
    assert_eq!(model.section(first.1).unwrap().title, "alpha");
    // Only pages with content are walked, so p2 sits at slot 0 of the walk;
    // the cursor rests just past its first section, before anything of p3
    // was examined.
    assert_eq!(it.position(), (0, 1));

    let second = it.next(&model, &rule).expect("second match must exist");
    assert_eq!(second.0, p3);
    assert_eq!(model.section(second.1).unwrap().title, "alphabet");
    assert_eq!(it.position(), (1, 1));

    assert_eq!(it.next(&model, &rule), None);
}

#[test]
fn search_is_not_restartable() {
    let mut model: Model<u32, u32> = Model::default();
    let _p = model
        .register(PageDef {
            meta: Meta::new("p", "icon"),
            content: Some(vec![Section::new("alpha")]),
            resource_key: 0,
            resource_init: 0,
        })
        .id();
    let rule = SearchRule::new("alpha").expect("pattern must compile");
    let mut it = model.search();
    assert!(it.next(&model, &rule).is_some());
    assert_eq!(it.next(&model, &rule), None);
    assert_eq!(it.next(&model, &rule), None);
    assert_eq!(it.position(), (1, 0));
}

#[test]
fn search_skips_pages_without_content() {
    let mut model: Model<u32, u32> = Model::default();
    let _bare = model
        .register(PageDef {
            meta: Meta::new("bare", "icon"),
            content: None,
            resource_key: 0,
            resource_init: 0,
        })
        .id();
    let rule = SearchRule::new(".").expect("pattern must compile");
    let mut it = model.search();
    assert_eq!(it.next(&model, &rule), None);
}

#[test]
fn rule_matching_is_real_regex() {
    let rule = SearchRule::new("^al").expect("pattern must compile");
    assert!(Section::new("alpha").matches_search(&rule));
    assert!(!Section::new("balpha").matches_search(&rule));
    assert!(!Section::new("beta").matches_search(&rule));
    let anchored = SearchRule::new("a.c").expect("pattern must compile");
    assert!(Section::new("xxabcxx").matches_search(&anchored));
    assert!(!Section::new("ab").matches_search(&anchored));
    assert!(SearchRule::new("(").is_none());
}
