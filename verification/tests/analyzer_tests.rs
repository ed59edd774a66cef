use textbatch::analyzer::analyze_read;

#[test]
fn unreadable_path_reports_zero_filled_stats() {
    let a = analyze_read(
        "missing.txt".to_string(),
        Err("metadata error: no such file".to_string()),
        Err("read error: no such file".to_string()),
        0,
    );
    assert_eq!(a.filename, "missing.txt");
    assert_eq!(a.stats.word_count, 0);
    assert_eq!(a.stats.line_count, 0);
    assert_eq!(a.stats.size_bytes, 0);
    assert_eq!(a.stats.char_frequencies.len(), 0);
    assert_eq!(a.errors.len(), 2);
    assert_eq!(a.errors[0], "metadata error: no such file");
    assert_eq!(a.errors[1], "read error: no such file");
    // timing is populated even on failure; the reading is just a number
    let _nanos: u64 = a.processing_time_nanos;
}

#[test]
fn successful_analysis_has_no_errors() {
    let a = analyze_read(
        "books/a.txt".to_string(),
        Ok(6),
        Ok("a b\nc\n".to_string()),
        0,
    );
    assert_eq!(a.filename, "books/a.txt");
    assert_eq!(a.stats.word_count, 3);
    assert_eq!(a.stats.line_count, 2);
    assert_eq!(a.stats.size_bytes, 6);
    assert_eq!(a.stats.char_frequencies.get('a'), 1);
    assert_eq!(a.stats.char_frequencies.get('\n'), 2);
    assert!(a.errors.is_empty());
}

#[test]
fn metadata_failure_alone_keeps_content_stats() {
    let a = analyze_read(
        "odd.txt".to_string(),
        Err("metadata error: denied".to_string()),
        Ok("one two".to_string()),
        0,
    );
    assert_eq!(a.stats.word_count, 2);
    assert_eq!(a.stats.line_count, 1);
    assert_eq!(a.stats.size_bytes, 0);
    assert_eq!(a.errors.len(), 1);
    assert_eq!(a.errors[0], "metadata error: denied");
}

#[test]
fn read_failure_alone_keeps_size() {
    let a = analyze_read(
        "big.bin".to_string(),
        Ok(1024),
        Err("read error: not valid text".to_string()),
        0,
    );
    assert_eq!(a.stats.word_count, 0);
    assert_eq!(a.stats.line_count, 0);
    assert_eq!(a.stats.size_bytes, 1024);
    assert_eq!(a.errors.len(), 1);
    assert_eq!(a.errors[0], "read error: not valid text");
}
