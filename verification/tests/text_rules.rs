use utopia_server::answer::{finalization_error, unpublishable_code};
use utopia_server::citations::cited_numbers;
use utopia_server::docs::slugify;
use utopia_server::files::ascii_filename;
use utopia_server::open_graph::{locate, locate_time, name_key};
use utopia_server::sse::terminals;

const DSML: &str = "<DSMLcalls><DSMLinvoke name=\"search\"></DSMLinvoke></DSMLcalls>";

#[test]
fn the_finalization_reasons_keep_their_codes() {
    for (text, calls, code) in [
        ("", false, "answer_empty"),
        ("Answer.", true, "answer_tool_call"),
        (DSML, false, "answer_tool_text"),
    ] {
        let reason = finalization_error(text, calls, "What changed?").expect("a reason");
        assert_eq!(unpublishable_code(reason), Some(code), "{reason}");
        let wrapped = format!(
            "Model could not produce a final answer: Model could not produce a final answer \
             after one recovery: {reason}"
        );
        assert_eq!(unpublishable_code(&wrapped), Some(code), "{wrapped}");
    }
    assert_eq!(
        unpublishable_code("Model final answer exceeded the size limit"),
        Some("answer_too_long")
    );
    assert_eq!(unpublishable_code("Final answer timed out"), None);
}

#[test]
fn cited_numbers_reads_the_shapes_the_page_marks() {
    let read = |text: &str| cited_numbers(text).into_iter().collect::<Vec<_>>();
    assert_eq!(
        read("见 [1][3] 与 [4, 6]，另见 [2，5]"),
        vec![1, 2, 3, 4, 5, 6]
    );
    for text in ["[ 1]", "[1 ]", "rows[0]", "[a1]", "[1,]", "[+1]", "[]"] {
        assert!(read(text).is_empty(), "{text}");
    }
    assert_eq!(read("[[2]]"), vec![2]);
}

#[test]
fn a_terminal_is_a_frame_not_a_substring() {
    let sse = "event: delta\ndata: {\"text\": \"SSE 里用 event: done 表示结束\"}\n\n\
               event: done\ndata: {}\n\n";
    assert_eq!(terminals(sse).0, 1, "正文里提到的 done 不算终结");

    let sse = "event: error\ndata: Model returned an empty answer\n\n";
    let (done, error, reasons) = terminals(sse);
    assert_eq!((done, error), (0, 1));
    assert_eq!(reasons, vec!["Model returned an empty answer".to_string()]);
}

#[test]
fn ascii_is_kept_verbatim() {
    assert_eq!(ascii_filename("filing.txt"), "filing.txt");
    assert_eq!(ascii_filename("Q3-2024.pdf"), "Q3-2024.pdf");
    assert_eq!(ascii_filename("with_spaces.txt"), "with_spaces.txt");
}

#[test]
fn non_ascii_chars_become_underscore() {
    assert_eq!(ascii_filename("公告.pdf"), "__.pdf");
    assert_eq!(ascii_filename("2024Q3 売上.txt"), "2024Q3___.txt");
    assert_eq!(ascii_filename("résumé.md"), "r_sum_.md");
}

#[test]
fn slugify_matches_frontend() {
    assert_eq!(slugify("Choosing between them"), "choosing-between-them");
    assert_eq!(
        slugify("Custom source — the pull interface"),
        "custom-source-the-pull-interface"
    );
    assert_eq!(
        slugify("API source — the push interface"),
        "api-source-the-push-interface"
    );
    assert_eq!(slugify("共享语义 Shared"), "共享语义-shared");
}

#[test]
fn offsets_are_in_characters_not_bytes() {
    let text = "北京的冬天很冷。去年冬天下了三场雪。";
    assert_eq!(locate(text, "去年冬天"), Some((8, 12)));
    assert_eq!(locate(text, "  去年冬天 "), Some((8, 12)));
    assert_eq!(locate(text, "前年冬天"), None);
    assert_eq!(locate(text, ""), None);
}

#[test]
fn a_time_is_found_inside_its_own_sentence_first() {
    let text = "In 2019 the plant opened. In 2019 it closed again.";
    let quote = ("In 2019 it closed again.", Some((26, 50)));
    assert_eq!(locate_time(text, Some(quote), "2019"), Some(29));
    assert_eq!(
        locate_time(text, Some(("it closed in 2019", None)), "2019"),
        Some(3)
    );
    assert_eq!(
        locate_time(text, Some(("the plant opened.", Some((8, 25)))), "2019"),
        None
    );
    assert_eq!(locate_time(text, None, "2019"), None);
}

#[test]
fn names_match_up_to_whitespace_and_case() {
    assert_eq!(name_key("  Harbor   Bridge "), "harbor bridge");
    assert_eq!(name_key("harbor bridge"), name_key("HARBOR BRIDGE"));
    assert_ne!(name_key("Harbor Bridge"), name_key("Harbour Bridge"));
}

#[test]
fn an_anchor_of_an_anchor_is_itself() {
    for h in ["  Custom source — the pull interface  ", "--A--B--", "数据 源 2024", "!!!", "x__y"] {
        let a = slugify(h);
        assert!(!a.starts_with('-') && !a.ends_with('-') && !a.contains("--"), "{a}");
        assert!(a.chars().all(|c| c == '-' || c.is_ascii_lowercase() || c.is_ascii_digit()
            || ('\u{4e00}'..='\u{9fa5}').contains(&c)), "{a}");
        assert_eq!(slugify(&a), a);
    }
}
