use cam2anki::crawler::job::build_jobs;
use cam2anki::crawler::pipeline::{total_units, PipelineConfig, PipelineSummary};

#[test]
fn jobs_keep_input_and_order() {
    let jobs = build_jobs(vec!["hello".to_string(), "https://x.org/a".to_string(), " two words ".to_string()]);
    assert_eq!(jobs.len(), 3);
    assert_eq!(jobs[0].original_input, "hello");
    assert_eq!(jobs[0].url, "https://dictionary.cambridge.org/dictionary/english/hello");
    assert_eq!(jobs[1].url, "https://x.org/a");
    assert_eq!(jobs[2].original_input, " two words ");
    assert_eq!(jobs[2].url, "https://dictionary.cambridge.org/dictionary/english/two%20words");
    assert!(build_jobs(vec![]).is_empty());
}

fn completed(s: &PipelineSummary) -> usize {
    s.crawl_success + 2 * s.crawl_failed + s.import_success + s.import_failed
}

#[test]
fn five_words_make_ten_units() {
    assert_eq!(total_units(5), 10);
    assert_eq!(total_units(0), 0);
    let mut s = PipelineSummary::start(5);
    let mut done: u64 = 0;
    // word 1: crawled and imported
    done += s.record_crawl_ok();
    done += s.record_import_ok("a".to_string(), 11);
    // word 2: crawl failed
    done += s.record_crawl_failed("b".to_string(), "timeout".to_string());
    // word 3: crawled, import failed
    done += s.record_crawl_ok();
    done += s.record_import_failed("c".to_string(), "bad field".to_string());
    // word 4: crawled, queue closed
    done += s.record_crawl_ok();
    done += s.record_import_queue_closed();
    // word 5: crawled and imported
    done += s.record_crawl_ok();
    assert!(done < total_units(5));
    done += s.record_import_ok("e".to_string(), 12);
    assert_eq!(done, total_units(5));
    assert_eq!(completed(&s) as u64, done);
    assert_eq!(s.crawl_success, 4);
    assert_eq!(s.crawl_failed, 1);
    assert_eq!(s.import_success, 2);
    assert_eq!(s.import_failed, 2);
    assert_eq!(s.import_skipped, 1);
    assert_eq!(s.imported_words.len(), 2);
    assert_eq!(s.imported_words[1].word, "e");
    assert_eq!(s.imported_words[1].note_id, 12);
    assert_eq!(s.failed_words.len(), 3);
    assert_eq!(s.failed_words[0].stage, "crawl");
    assert_eq!(s.failed_words[0].input, "b");
    assert_eq!(s.failed_words[0].error, "timeout");
    assert_eq!(s.failed_words[1].stage, "import");
    assert_eq!(s.failed_words[2].input, "<pipeline>");
    assert_eq!(s.failed_words[2].error, "Import queue closed unexpectedly");
}

#[test]
fn empty_summary() {
    let s = PipelineSummary::empty();
    assert_eq!(s.total_words, 0);
    assert_eq!(completed(&s), 0);
    assert!(s.imported_words.is_empty() && s.failed_words.is_empty());
}

#[test]
fn worker_counts_are_at_least_one() {
    let c = PipelineConfig {
        anki_url: "http://127.0.0.1:8765".to_string(),
        deck_name: "D".to_string(),
        model_name: "M".to_string(),
        crawl_concurrency: 0,
        import_concurrency: 3,
        import_queue_capacity: 0,
    };
    assert_eq!(c.crawl_workers(), 1);
    assert_eq!(c.import_workers(), 3);
    assert_eq!(c.import_queue_bound(), 1);
}
