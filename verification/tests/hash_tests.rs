use lithe::{hash_id, stable_hash};

#[test]
fn hash_is_deterministic_across_calls() {
    let keys = [
        "module::add",
        "app::pages::get_data",
        "crate::login",
        "page1_anon_1",
        "",
    ];
    for k in keys {
        assert_eq!(stable_hash(k), stable_hash(k));
        assert_eq!(hash_id(k), hash_id(k));
    }
}

#[test]
fn hash_exact_values() {
    assert_eq!(stable_hash(""), "1505");
    assert_eq!(stable_hash("a"), "2b606");
    assert_eq!(stable_hash("hello"), "310f923099");
    assert_eq!(stable_hash("module::add"), "c0b110de588fff28");
    assert_eq!(hash_id("module::add"), "f_c0b110de588fff28");
}

#[test]
fn hash_corpus_has_no_collisions() {
    let corpus = [
        "module::add",
        "module::sub",
        "app::pages::get_data",
        "app::pages::get_data_final",
        "app::pages::get_data_step_1",
        "crate::login",
        "crate::logout",
        "index_anon_1",
        "index_anon_2",
        "counter::increment",
        "counter::decrement",
        "weather::get_forecast",
    ];
    let ids: Vec<String> = corpus.iter().map(|k| stable_hash(k)).collect();
    for i in 0..ids.len() {
        for j in 0..ids.len() {
            if i != j {
                assert_ne!(ids[i], ids[j], "collision between {} and {}", corpus[i], corpus[j]);
            }
        }
    }
}

#[test]
fn hash_output_alphabet_is_safe_for_export_names() {
    for k in ["module::add", "a b c", "päge::fn", ""] {
        let h = stable_hash(k);
        assert!(!h.is_empty());
        for c in h.chars() {
            assert!(c.is_ascii_alphanumeric());
        }
    }
}
