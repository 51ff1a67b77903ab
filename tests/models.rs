use codex_monitor::models::{model_selector, providers_from_listing};

#[test]
fn models_grouped_and_sorted_by_provider() {
    let r = providers_from_listing("openai/gpt-4\nopenai/gpt-4-mini\nanthropic/sonnet-x\n");
    assert_eq!(r.len(), 2);
    assert_eq!(r[0].id, "anthropic");
    assert_eq!(r[0].name, "anthropic");
    assert_eq!(r[1].id, "openai");
    let ids: Vec<&str> = r[1].models.iter().map(|m| m.id.as_str()).collect();
    assert_eq!(ids, vec!["gpt-4", "gpt-4-mini"]);
    for p in &r {
        for m in &p.models {
            assert_eq!(m.name, m.id);
        }
    }
    assert_eq!(r[0].models.len(), 1);
    assert_eq!(r[0].models[0].id, "sonnet-x");
}

#[test]
fn listing_skips_blank_and_unqualified_lines() {
    let r = providers_from_listing("\n  \r\nplain\n  zeta/a/b  \r\nalpha/x\n");
    assert_eq!(r.len(), 2);
    assert_eq!(r[0].id, "alpha");
    assert_eq!(r[1].id, "zeta");
    assert_eq!(r[1].models[0].id, "a/b");
    assert!(providers_from_listing("").is_empty());
}

#[test]
fn provider_order_is_byte_order() {
    let r = providers_from_listing("b/1\nB/2\nab/3\na/4\n");
    let ids: Vec<&str> = r.iter().map(|p| p.id.as_str()).collect();
    assert_eq!(ids, vec!["B", "a", "ab", "b"]);
}

#[test]
fn selector_needs_both_parts() {
    assert_eq!(model_selector(Some("openai".into()), Some("gpt-4".into())), Some("openai/gpt-4".to_string()));
    assert_eq!(model_selector(Some("openai".into()), None), None);
    assert_eq!(model_selector(None, Some("gpt-4".into())), None);
}
