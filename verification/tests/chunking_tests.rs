//! Cutting texts, and reading chunks that were cut elsewhere.

use kg_extract::chunking::{
    join_texts, locate_pieces, parse_prechunked, place_pieces, segment, ChunkError, ChunkStrategy, PreChunked,
};
use kg_extract::json::Json;
use kg_extract::range::LineSpan;

fn refused(r: Result<PreChunked, ChunkError>) -> String {
    match r {
        Ok(_) => panic!("must be refused"),
        Err(e) => e.message(),
    }
}

#[test]
fn recursive_honors_segment_size() {
    let text = "Knowledge graphs link entities through typed relations. ".repeat(40);
    let segs = segment(&text, ChunkStrategy::Recursive, 32, 0).unwrap();
    assert!(
        segs.len() > 1,
        "recursive chunker must respect segment_size, got {} segment(s)",
        segs.len()
    );
}

#[test]
fn char_segment_size_splits() {
    let text = "x".repeat(1000);
    let segs = segment(&text, ChunkStrategy::Char, 100, 0).unwrap();
    assert_eq!(segs.len(), 10, "char chunker splits by size, got {}", segs.len());
}

#[test]
fn prechunked_parses_jsonl_with_metadata() {
    let input = r#"
{"id":"chnk_1","text":"First chunk.","source_file":"doc.md","range":{"char_span":{"start":0,"end":12},"line":{"start":1,"end":2}},"metadata":{"token_count":3}}
{"id":"chnk_2","text":"Second chunk.","source_file":"doc.md","range":{"char_span":{"start":12,"end":25},"line":{"start":3,"end":4}},"metadata":{"token_count":3}}
"#;
    let p = parse_prechunked(input).unwrap();
    assert_eq!(p.segments.len(), 2);
    assert_eq!(p.source.as_deref(), Some("doc.md"));
    let s = &p.segments[1];
    assert_eq!(s.content, "Second chunk.");
    assert_eq!((s.index, s.start, s.end), (1, 12, 25));
    assert_eq!(s.range.as_ref().and_then(|range| range.line), LineSpan::new(3, 4));
}

#[test]
fn prechunked_parses_json_array_and_truncation_wrapper() {
    let arr = r#"[{"text":"A","range":{"char_span":{"start":0,"end":1}}},{"text":"B","range":{"char_span":{"start":1,"end":2}}}]"#;
    assert_eq!(parse_prechunked(arr).unwrap().segments.len(), 2);

    let wrapped = r#"{"chunks":[{"text":"A","range":{"char_span":{"start":0,"end":1}}}],"truncated":true,"returned":1,"total":9}"#;
    let p = parse_prechunked(wrapped).unwrap();
    assert_eq!(p.segments.len(), 1);
    assert_eq!(p.segments[0].content, "A");
}

#[test]
fn prechunked_skips_jsonl_truncation_trailer() {
    let input = "{\"text\":\"A\",\"range\":{\"char_span\":{\"start\":0,\"end\":1}}}\n\
            {\"truncated\":true,\"returned\":1,\"total\":5}";
    let p = parse_prechunked(input).unwrap();
    assert_eq!(p.segments.len(), 1);
}

#[test]
fn prechunked_synthesizes_missing_offsets_cumulatively() {
    let input = "{\"text\":\"abcde\"}\n{\"text\":\"fgh\"}";
    let p = parse_prechunked(input).unwrap();
    assert_eq!((p.segments[0].start, p.segments[0].end), (0, 5));
    assert_eq!((p.segments[1].start, p.segments[1].end), (5, 8));
    assert_eq!(p.segments[1].range.as_ref().and_then(|range| range.line), None);
}

#[test]
fn prechunked_stdin_source_is_unknown() {
    let input = r#"{"text":"A","source_file":"<stdin>"}"#;
    assert!(parse_prechunked(input).unwrap().source.is_none());
}

#[test]
fn prechunked_preserves_title_and_metadata() {
    let input = r#"
{"id":"tbl-1","text":"Revenue grew to $3.8M.","source_file":"doc.pdf","title":"q4_revenue","metadata":{"mm_kind":"table","mm_table_format":"html"}}
{"id":"chnk_2","text":"Plain chunk."}
"#;
    let p = parse_prechunked(input).unwrap();
    let s = &p.segments[0];
    assert_eq!(s.title.as_deref(), Some("q4_revenue"));
    assert_eq!(s.metadata.get("mm_kind").unwrap(), &Json::Text("table".into()));
    assert_eq!(s.metadata.get("mm_table_format").unwrap(), &Json::Text("html".into()));
    assert_eq!(p.segments[1].title, None);
    assert!(p.segments[1].metadata.is_empty());
}

#[test]
fn prechunked_rejects_non_object_metadata() {
    let input = r#"{"text":"A","metadata":"not-an-object"}"#;
    let error = refused(parse_prechunked(input));
    assert!(error.contains("metadata"), "got: {error}");
}

#[test]
fn prechunked_rejects_conflicting_source_files() {
    let input = r#"
{"text":"A","source_file":"one.md"}
{"text":"B","source_file":"two.md"}
"#;
    let error = refused(parse_prechunked(input));
    assert!(error.contains("one.md") && error.contains("two.md"));
    assert!(error.contains("chunk 2"), "got: {error}");
    assert!(error.contains("split the input by source_file"), "got: {error}");
}

#[test]
fn prechunked_rejects_inverted_char_span() {
    let input = r#"{"text":"A","range":{"char_span":{"start":5,"end":2}}}"#;
    let error = refused(parse_prechunked(input));
    assert!(error.contains("char span") && error.contains("5") && error.contains("2"));
}

#[test]
fn prechunked_rejects_chunk_without_text_and_empty_input() {
    assert!(parse_prechunked(r#"{"id":"x"}"#).is_err());
    assert!(parse_prechunked("").is_err());
    assert!(parse_prechunked("[]").is_err());
    assert!(parse_prechunked("not json at all").is_err());
}

#[test]
fn each_refusal_says_why() {
    assert_eq!(
        refused(parse_prechunked("  ")),
        "no pre-chunked input (expected chonkie JSON or JSONL chunks)"
    );
    assert_eq!(refused(parse_prechunked("[]")), "pre-chunked input contains no chunks");
    assert!(refused(parse_prechunked("3")).starts_with("pre-chunked input must be chunk objects"));
    assert!(refused(parse_prechunked(r#"{"id":"x"}"#)).contains("text"));
}

#[test]
fn windows_overlap_and_cover_the_text() {
    let segs = segment("abcdefg", ChunkStrategy::Char, 4, 1).unwrap();
    let texts: Vec<&str> = segs.iter().map(|s| s.content.as_str()).collect();
    assert_eq!(texts, ["abcd", "defg", "g"]);
    assert_eq!(segs.iter().map(|s| s.start).collect::<Vec<_>>(), [0, 3, 6]);
    assert_eq!(segs.iter().map(|s| s.end).collect::<Vec<_>>(), [4, 7, 7]);
}

#[test]
fn recursive_pieces_lie_end_to_end() {
    let text = "One sentence here. Another sentence there. A third one.";
    let segs = segment(text, ChunkStrategy::Recursive, 24, 0).unwrap();
    let joined: String = segs.iter().map(|s| s.content.as_str()).collect();
    assert_eq!(joined, text);
    for w in segs.windows(2) {
        assert_eq!(w[0].end, w[1].start);
    }
}

#[test]
fn recursive_pieces_are_found_where_they_stand() {
    let text = "alpha  beta\tgamma delta   epsilon zeta eta theta\nlast words of the text here";
    let segs = segment(text, ChunkStrategy::Recursive, 12, 0).unwrap();
    let chars: Vec<char> = text.chars().collect();
    let solid = |s: &str| s.chars().filter(|c| *c != ' ' && *c != '\t').collect::<String>();
    let mut last = 0;
    for s in &segs {
        assert!(last <= s.start && s.start <= s.end && s.end <= chars.len());
        let there: String = chars[s.start..s.end].iter().collect();
        assert_eq!(solid(&there), solid(&s.content));
        last = s.end;
    }
    let all: String = segs.iter().map(|s| solid(&s.content)).collect();
    assert_eq!(all, solid(text));
    let segs = locate_pieces("a  b\tc", vec!["a b".into(), "c".into()]);
    assert_eq!((segs[0].start, segs[0].end), (0, 4));
    assert_eq!((segs[1].start, segs[1].end), (5, 6));
}

#[test]
fn a_refusal_says_what_was_wrong() {
    let e = refused(parse_prechunked("{\"text\":\"a\"}\nnope"));
    assert_eq!(e, "pre-chunked input line 2: expected ident at line 1 column 2");
    let e = refused(parse_prechunked(
        r#"[{"text":"a","source_file":"x\"y"},{"text":"b","source_file":"z"}]"#,
    ));
    assert!(e.contains(r#"has source_file "z" but earlier chunks came from "x\"y";"#), "{e}");
}

#[test]
fn a_range_that_cannot_be_read_is_explained() {
    let fault = |range: &str| {
        let e = refused(parse_prechunked(&format!(r#"[{{"text":"a","range":{range}}}]"#)));
        e.strip_prefix("chunk 1 has invalid range: ").unwrap().to_string()
    };
    assert_eq!(fault("3"), "invalid type: integer `3`, expected struct SourceRange");
    assert_eq!(fault(r#"{"line":"x"}"#), "invalid type: string \"x\", expected struct LineSpan");
    assert_eq!(fault(r#"{"line":{"start":1}}"#), "missing field `end`");
    assert_eq!(
        fault(r#"{"page":{"start":-1,"end":2}}"#),
        "invalid value: integer `-1`, expected u32"
    );
    assert_eq!(
        fault(r#"{"line":{"start":1,"end":4294967296}}"#),
        "invalid value: integer `4294967296`, expected u32"
    );
    assert_eq!(
        fault(r#"{"bbox":{"x0":0,"y0":null,"x1":1,"y1":1}}"#),
        "invalid type: null, expected f64"
    );
    assert_eq!(
        fault(r#"{"line":{"start":1.5,"end":true}}"#),
        "invalid type: boolean `true`, expected u32"
    );
}

#[test]
fn counting_tokens_is_left_to_the_caller() {
    assert!(segment("some text", ChunkStrategy::Token, 4, 0).is_none());
    let segs = place_pieces(vec!["some ".into(), "text".into()], None);
    assert_eq!((segs[1].index, segs[1].start, segs[1].end), (1, 5, 9));
}

#[test]
fn lines_are_noted_beside_what_is_known() {
    let mut s = place_pieces(vec!["abc".into()], None).remove(0);
    assert!(s.evidence_range().is_none(), "characters alone are not cited");
    s.set_line_span(2, 3);
    let r = s.evidence_range().unwrap();
    assert_eq!(r.line, LineSpan::new(2, 3));
    assert_eq!(r.char_span.unwrap().end, 3);
    assert_eq!(s.line_span(), LineSpan::new(2, 3));
}

#[test]
fn texts_are_joined_with_what_stands_between() {
    assert_eq!(join_texts(&vec!["a".into(), "b".into()], "\n\n"), "a\n\nb");
    assert_eq!(join_texts(&vec![], "\n\n"), "");
}

#[test]
fn no_character_is_lost_between_windows() {
    let text: String = ('a'..='z').collect();
    for (size, overlap) in [(1, 0), (4, 1), (5, 4), (30, 3)] {
        let segs = segment(&text, ChunkStrategy::Char, size, overlap).unwrap();
        for (i, c) in text.chars().enumerate() {
            assert!(
                segs.iter().any(|s| s.start <= i
                    && i < s.end
                    && s.content.chars().nth(i - s.start) == Some(c)),
                "{c} with {size} and {overlap}"
            );
        }
    }
}
