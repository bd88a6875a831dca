use rooq::pdf::{
    page_pixels_to_rgba, pages_to_render, CacheKey, DecodedPage, PdfCache, PdfProvider,
    PdfProviderError, MAX_CACHED_DOCUMENTS,
};

fn key(path: &str, mtime_nanos: u128) -> CacheKey {
    CacheKey { path: path.to_string(), mtime_nanos, size: 100 }
}

fn page(width: u32) -> DecodedPage {
    DecodedPage { width, height: 1, rgba8: vec![0; (width * 4) as usize] }
}

#[test]
fn lru_cache_evicts_oldest_when_over_capacity() {
    let mut cache = PdfCache::new();
    for i in 0..(MAX_CACHED_DOCUMENTS + 5) {
        let key = CacheKey {
            path: format!("fake_{i}.pdf"),
            mtime_nanos: i as u128,
            size: 100,
        };
        cache.insert(key, vec![]);
    }
    assert_eq!(cache.len(), MAX_CACHED_DOCUMENTS);
    assert!(!cache.contains_key(&CacheKey {
        path: String::from("fake_0.pdf"),
        mtime_nanos: 0,
        size: 100,
    }));
}

#[test]
fn stored_pages_are_found_again() {
    let mut cache = PdfCache::new();
    cache.insert(key("a.pdf", 1), vec![page(3), page(5)]);
    let pages = cache.pages(&key("a.pdf", 1)).unwrap();
    assert_eq!(pages.len(), 2);
    assert_eq!(pages[1].width, 5);
    assert!(cache.pages(&key("a.pdf", 2)).is_none());
}

#[test]
fn re_storing_a_key_replaces_its_pages() {
    let mut cache = PdfCache::new();
    cache.insert(key("a.pdf", 1), vec![page(3)]);
    cache.insert(key("a.pdf", 1), vec![page(7), page(8)]);
    assert_eq!(cache.len(), 1);
    assert_eq!(cache.pages(&key("a.pdf", 1)).unwrap()[0].width, 7);
}

#[test]
fn using_a_document_protects_it_from_eviction() {
    let mut cache = PdfCache::new();
    for i in 0..MAX_CACHED_DOCUMENTS {
        cache.insert(key("doc.pdf", i as u128), vec![]);
    }
    cache.touch(&key("doc.pdf", 0));
    cache.insert(key("new.pdf", 0), vec![]);
    assert!(cache.contains_key(&key("doc.pdf", 0)));
    assert!(!cache.contains_key(&key("doc.pdf", 1)));
    assert_eq!(cache.len(), MAX_CACHED_DOCUMENTS);
}

#[test]
fn provider_renders_only_on_a_miss() {
    let mut provider = PdfProvider::new();
    let mut calls = 0;
    let first = provider
        .get_or_render_first_pages(Ok(key("r.pdf", 1)), || {
            calls += 1;
            Ok(vec![page(2)])
        })
        .unwrap()
        .len();
    assert_eq!(first, 1);
    let second = provider
        .get_or_render_first_pages(Ok(key("r.pdf", 1)), || {
            calls += 1;
            Ok(vec![])
        })
        .unwrap()
        .len();
    assert_eq!(second, 1);
    assert_eq!(calls, 1);
    assert_eq!(provider.available_page_count(Some(&key("r.pdf", 1))), Some(1));
}

#[test]
fn provider_reports_metadata_and_render_failures() {
    let mut provider = PdfProvider::new();
    match provider.get_or_render_first_pages(Err("no such file".to_string()), || Ok(vec![])) {
        Err(PdfProviderError::OpenFailed(msg)) => assert_eq!(msg, "no such file"),
        _ => panic!("expected OpenFailed"),
    }
    match provider.get_or_render_first_pages(Ok(key("bad.pdf", 1)), || {
        Err(PdfProviderError::RenderFailed("broken page".to_string()))
    }) {
        Err(PdfProviderError::RenderFailed(msg)) => assert_eq!(msg, "broken page"),
        _ => panic!("expected RenderFailed"),
    }
    assert_eq!(provider.available_page_count(Some(&key("bad.pdf", 1))), None);
}

#[test]
fn recorded_renders_are_served_from_the_cache() {
    let mut provider = PdfProvider::new();
    assert!(provider.cached_pages(Some(&key("x.pdf", 9))).is_none());
    provider.record_external_render(Some(key("x.pdf", 9)), vec![page(1), page(2), page(3)]);
    provider.record_external_render(None, vec![page(4)]);
    assert_eq!(provider.cached_pages(Some(&key("x.pdf", 9))).map(|p| p.len()), Some(3));
    assert!(provider.cached_pages(None).is_none());
    assert_eq!(provider.available_page_count(None), None);
    // A modified file has a new key and is not served the old render.
    assert!(provider.cached_pages(Some(&key("x.pdf", 10))).is_none());
}

#[test]
fn at_most_six_pages_are_rendered() {
    assert_eq!(pages_to_render(0), 0);
    assert_eq!(pages_to_render(4), 4);
    assert_eq!(pages_to_render(6), 6);
    assert_eq!(pages_to_render(250), 6);
}

#[test]
fn rendered_pixels_become_rgba() {
    assert_eq!(page_pixels_to_rgba(&[9, 8, 7], 3).unwrap(), vec![9, 8, 7, 255]);
    assert_eq!(page_pixels_to_rgba(&[9, 8, 7, 6], 4).unwrap(), vec![9, 8, 7, 6]);
    match page_pixels_to_rgba(&[1], 1) {
        Err(PdfProviderError::RenderFailed(msg)) => {
            assert_eq!(msg, "unexpected pixel component count: 1 (expected 3 or 4)")
        }
        _ => panic!("expected RenderFailed"),
    }
}

#[test]
fn recording_more_than_six_pages_keeps_the_first_six() {
    let mut provider = PdfProvider::new();
    let pages: Vec<DecodedPage> = (1..=7).map(page).collect();
    provider.record_external_render(Some(key("long.pdf", 1)), pages);
    assert_eq!(provider.available_page_count(Some(&key("long.pdf", 1))), Some(6));
    let kept = provider.cached_pages(Some(&key("long.pdf", 1))).unwrap();
    let widths: Vec<u32> = kept.iter().map(|p| p.width).collect();
    assert_eq!(widths, vec![1, 2, 3, 4, 5, 6]);
}

#[test]
fn a_render_of_many_pages_is_cut_to_six() {
    let mut provider = PdfProvider::new();
    let out = provider
        .get_or_render_first_pages(Ok(key("big.pdf", 2)), || Ok((1..=9).map(page).collect()))
        .unwrap();
    assert_eq!(out.len(), 6);
    let again = provider
        .get_or_render_first_pages(Ok(key("big.pdf", 2)), || panic!("rendered twice"))
        .unwrap();
    let widths: Vec<u32> = again.iter().map(|p| p.width).collect();
    assert_eq!(widths, vec![1, 2, 3, 4, 5, 6]);
}
