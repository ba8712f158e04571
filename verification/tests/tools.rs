use mochi::tools::edit::{apply_edit, apply_edits, edit_error_message, edit_summary, multi_edit_error_message, multi_edit_summary, EditError, EditSpec};
use mochi::tools::files::{
    canonical_pattern, compile_search, find_report, glob_report, read_report, read_window, select_found, write_summary, FoundEntry, GlobError,
    WalkEntry,
};
use mochi::tools::shell::{bash_report, bash_report_from_bytes, combine_output, timeout_ms};
use mochi::tools::web_fetch::{fetch_report, html_to_text, is_html, url_allowed};
use mochi::tools::web_search::{decode_ddg_redirect, parse_ddg_html, render_search_results, result_count, search_url, strip_tags, urldecode, urlencode};
use mochi::tools::{available_tools, needs_permission, tilde_path, tool_by_name, TildePath, ToolKind};

#[test]
fn registered_tool_names_match_anthropic_sdk_pascal_case() {
    let tools = available_tools();
    let names: Vec<&str> = tools.iter().map(|t| t.function.name.as_str()).collect();
    assert!(names.contains(&"Read"));
    assert!(names.contains(&"Glob"));
    assert!(names.contains(&"WebFetch"));
    assert!(names.contains(&"Bash"));
    assert!(names.contains(&"WebSearch"));
}

#[test]
fn write_side_effects_need_permission_read_side_does_not() {
    assert!(needs_permission("Bash"));
    assert!(needs_permission("Write"));
    assert!(needs_permission("Edit"));
    assert!(!needs_permission("Read"));
    assert!(!needs_permission("Glob"));
    assert!(!needs_permission("WebFetch"));
}

#[test]
fn unknown_tool_name_is_not_registered() {
    assert_eq!(tool_by_name("Nope"), None);
    assert_eq!(tool_by_name("Read"), Some(ToolKind::Read));
    assert!(!needs_permission("Nope"));
}

#[test]
fn tilde_paths_resolve_under_home() {
    assert_eq!(tilde_path("~/foo"), TildePath::UnderHome("foo".to_owned()));
    assert_eq!(tilde_path("~"), TildePath::Home);
    assert_eq!(tilde_path("/abs/path"), TildePath::AsWritten("/abs/path".to_owned()));
    assert_eq!(tilde_path("~user"), TildePath::AsWritten("~user".to_owned()));
}

#[test]
fn html_stripper_drops_scripts_styles_and_tags() {
    let html = "<html><head><style>.x{color:red}</style><script>alert(1)</script></head><body><h1>Hello</h1><p>World &amp; mochi</p></body></html>";
    let out = html_to_text(html);
    assert!(out.contains("Hello"));
    assert!(out.contains("World & mochi"));
    assert!(!out.contains("alert"));
    assert!(!out.contains("color:red"));
    assert!(!out.contains("<"));
}

#[test]
fn html_stripper_collapses_whitespace() {
    let html = "<p>line1</p>\n\n\n\n<p>line2</p>";
    let out = html_to_text(html);
    let blanks = out.matches("\n\n\n").count();
    assert_eq!(blanks, 0);
}

#[test]
fn html_stripper_decodes_common_entities() {
    let out = html_to_text("<p>&lt;tag&gt; &amp; &nbsp;done</p>");
    assert!(out.contains("<tag>"));
    assert!(out.contains("&"));
}

#[test]
fn fetch_accepts_only_http_urls() {
    assert!(url_allowed("https://example.com"));
    assert!(url_allowed("http://example.com/x"));
    assert!(!url_allowed("file:///etc/passwd"));
    assert!(!url_allowed("example.com"));
}

#[test]
fn html_is_detected_by_type_or_prefix() {
    assert!(is_html("text/html; charset=utf-8", "x"));
    assert!(is_html("text/plain", "  <!DOCTYPE html><p>x</p>"));
    assert!(!is_html("application/json", "{\"a\":1}"));
}

#[test]
fn urlencode_basic() {
    assert_eq!(urlencode("hello world"), "hello+world");
    assert_eq!(urlencode("a&b"), "a%26b");
    assert_eq!(urlencode("café"), "caf%C3%A9");
}

#[test]
fn urldecode_roundtrips_known_inputs() {
    assert_eq!(urldecode("hello+world"), "hello world");
    assert_eq!(urldecode("a%26b"), "a&b");
    assert_eq!(urldecode("caf%C3%A9"), "café");
}

#[test]
fn strip_tags_decodes_entities() {
    assert_eq!(strip_tags("<b>hi &amp; bye</b>"), "hi & bye");
}

#[test]
fn decodes_ddg_uddg_wrapper() {
    let href = "//duckduckgo.com/l/?uddg=https%3A%2F%2Fexample.com%2Fcat&rut=abc";
    assert_eq!(decode_ddg_redirect(href), "https://example.com/cat");
}

#[test]
fn passes_through_direct_https_url() {
    assert_eq!(decode_ddg_redirect("https://example.com"), "https://example.com");
}

#[test]
fn parses_minimal_ddg_result_block() {
    let html = r##"
    <div>
      <a class="result__a" href="//duckduckgo.com/l/?uddg=https%3A%2F%2Fexample.com%2Fa">Example A</a>
      <a class="result__snippet" href="x">First snippet here.</a>
    </div>
    <div>
      <a class="result__a" href="//duckduckgo.com/l/?uddg=https%3A%2F%2Fexample.com%2Fb">Example B</a>
    </div>
    "##;
    let results = parse_ddg_html(html, 10);
    assert_eq!(results.len(), 2);
    assert_eq!(results[0].title, "Example A");
    assert_eq!(results[0].url, "https://example.com/a");
    assert_eq!(results[0].snippet, "First snippet here.");
    assert_eq!(results[1].title, "Example B");
    assert!(results[1].snippet.is_empty());
}

#[test]
fn ddg_parse_respects_the_cap() {
    let html = r##"<a class="result__a" href="https://a.example">A</a><a class="result__a" href="https://b.example">B</a>"##;
    let results = parse_ddg_html(html, 1);
    assert_eq!(results.len(), 1);
    assert_eq!(results[0].url, "https://a.example");
}

#[test]
fn search_count_defaults_and_caps() {
    assert_eq!(result_count(None), 8);
    assert_eq!(result_count(Some(3)), 3);
    assert_eq!(result_count(Some(100)), 15);
}

#[test]
fn search_url_encodes_the_query() {
    assert_eq!(search_url("rust verus"), "https://html.duckduckgo.com/html/?q=rust+verus");
}

#[test]
fn empty_results_render_a_notice() {
    let out = render_search_results("zzz", &[]);
    assert!(out.contains("zzz"));
}

#[test]
fn edit_replaces_a_unique_occurrence() {
    let (t, n) = apply_edit("hello world", "world", "mochi", false).unwrap();
    assert_eq!(t, "hello mochi");
    assert_eq!(n, 1);
}

#[test]
fn edit_refuses_ambiguous_match() {
    assert_eq!(apply_edit("a a a", "a", "b", false), Err(EditError::Ambiguous(3)));
}

#[test]
fn edit_replace_all_counts_occurrences() {
    let (t, n) = apply_edit("a a a", "a", "b", true).unwrap();
    assert_eq!(t, "b b b");
    assert_eq!(n, 3);
}

#[test]
fn edit_errors_are_distinguished() {
    assert_eq!(apply_edit("abc", "zz", "y", false), Err(EditError::NotFound));
    assert_eq!(apply_edit("abc", "", "y", false), Err(EditError::EmptyOld));
    assert_eq!(apply_edit("abc", "b", "b", false), Err(EditError::NoOp));
}

fn spec(old: &str, new: &str, all: bool) -> EditSpec {
    EditSpec { old_string: old.to_owned(), new_string: new.to_owned(), replace_all: all }
}

#[test]
fn batch_edits_apply_in_order() {
    let edits = vec![spec("one", "two", false), spec("two", "three", false)];
    assert_eq!(apply_edits("one", &edits), Ok("three".to_owned()));
}

#[test]
fn batch_edit_reports_first_failure() {
    let edits = vec![spec("a", "b", false), spec("zzz", "q", false)];
    assert_eq!(apply_edits("a", &edits), Err((1, EditError::NotFound)));
}

#[test]
fn read_window_selects_lines() {
    let text = "1\n2\n3\n4\n5\n";
    assert_eq!(read_window(text, Some(2), Some(2)), "2\n3");
    assert_eq!(read_window(text, None, None), text);
    assert_eq!(read_window(text, None, Some(1)), "1");
    assert_eq!(read_window(text, Some(0), Some(1)), "1");
}

#[test]
fn read_report_has_a_header() {
    let out = read_report("/tmp/x", 6, b"alpha\n", None, None);
    assert_eq!(out, "# /tmp/x (6 bytes)\n\nalpha\n");
}

#[test]
fn bare_glob_names_become_recursive() {
    assert_eq!(canonical_pattern("Cargo.toml"), "**/Cargo.toml");
    assert_eq!(canonical_pattern("*.rs"), "*.rs");
}

#[test]
fn glob_search_matches_walk_entries() {
    let search = compile_search("*.rs").unwrap();
    assert_eq!(search.canonical(), "*.rs");
    let entries = vec![
        WalkEntry { relative: "a.rs".to_owned(), full: "/b/a.rs".to_owned() },
        WalkEntry { relative: "b.txt".to_owned(), full: "/b/b.txt".to_owned() },
    ];
    assert_eq!(search.select_hits(&entries), vec!["/b/a.rs".to_owned()]);
    assert!(matches!(compile_search("["), Err(GlobError::InvalidPattern(_))));
}

#[test]
fn glob_report_lists_hits() {
    let empty: Vec<String> = Vec::new();
    assert!(glob_report("*.rs", "/b", &empty).starts_with("no files matching `*.rs` under /b"));
    let hits = vec!["/b/a.rs".to_owned()];
    assert_eq!(glob_report("*.rs", "/b", &hits), "1 match(es) for `*.rs` (showing 1):\n- /b/a.rs\n");
}

#[test]
fn bash_timeout_defaults_and_caps() {
    assert_eq!(timeout_ms(None), 30_000);
    assert_eq!(timeout_ms(Some(5)), 5);
    assert_eq!(timeout_ms(Some(10_000_000)), 300_000);
}

#[test]
fn bash_output_merges_stderr() {
    assert_eq!(combine_output(b"out", b"err"), "out\n[stderr]\nerr");
    assert_eq!(combine_output(b"out\n", b""), "out\n");
}

#[test]
fn bash_report_shows_nonzero_exit() {
    assert_eq!(bash_report("echo hi", "hi\n", Some(0)), "$ echo hi\nhi\n");
    assert_eq!(bash_report("exit 3", "", Some(3)), "$ exit 3\n[exit 3]\n");
    assert_eq!(bash_report("kill", "", None), "$ kill\n[exit -1]\n");
    assert_eq!(bash_report_from_bytes("x", b"a", b"b", Some(0)), Some("$ x\na\n[stderr]\nb".to_owned()));
}

#[test]
fn fetch_report_strips_html_and_counts_bytes() {
    let out = fetch_report("https://e.x", "200 OK", "text/html", b"<p>Hi &amp; bye</p>").unwrap();
    assert!(out.starts_with("# GET https://e.x\nstatus: 200 OK\ncontent-type: text/html\nbytes-raw: 19, bytes-text: "));
    assert!(out.contains(" (HTML stripped)\n\n"));
    assert!(out.ends_with("\n\nHi & bye\n"));
    let plain = fetch_report("u", "200 OK", "application/json", b"{\"a\":1}").unwrap();
    assert_eq!(plain, "# GET u\nstatus: 200 OK\ncontent-type: application/json\nbytes-raw: 7, bytes-text: 7\n\n{\"a\":1}");
}

#[test]
fn fetch_report_cuts_long_text() {
    let body = vec![b'a'; 40_000];
    let out = fetch_report("u", "200 OK", "text/plain", &body).unwrap();
    assert!(out.contains("bytes-raw: 40000, bytes-text: 32768\n\n"));
    assert!(out.ends_with("\n\n[truncated: text exceeds 32KB output cap]"));
    let big = vec![b'b'; 600_000];
    let out = fetch_report("u", "200 OK", "text/plain", &big).unwrap();
    assert!(out.contains("bytes-raw: 600000, bytes-text: 32768"));
}

#[test]
fn edit_messages_name_the_problem() {
    assert_eq!(
        edit_error_message(EditError::Ambiguous(3), "/f"),
        "Edit: `old_string` found 3 times in /f but `replace_all` is false. Set replace_all: true or provide a more specific old_string."
    );
    assert_eq!(multi_edit_error_message(1, EditError::NoOp, "/f"), "MultiEdit: edit #1 is a no-op");
    assert_eq!(
        multi_edit_error_message(0, EditError::NotFound, "/f"),
        "MultiEdit: edit #0 old_string not found in current state of /f"
    );
    assert_eq!(edit_summary("/f", 2, true), "Edited /f (replaced 2 occurrence(s))");
    assert_eq!(edit_summary("/f", 1, false), "Edited /f (1 of 1 occurrence(s))");
    assert_eq!(multi_edit_summary(3, "/f"), "Applied 3 edits to /f");
    assert_eq!(write_summary("/f", 0, 5), "Wrote 5 bytes to new file /f");
    assert_eq!(write_summary("/f", 2, 5), "Overwrote /f (2 bytes → 5 bytes)");
}

#[test]
fn find_file_matches_names_ignoring_case() {
    let entries = vec![
        FoundEntry { file_name: "README.md".to_owned(), path: "/r/README.md".to_owned() },
        FoundEntry { file_name: "main.rs".to_owned(), path: "/r/main.rs".to_owned() },
        FoundEntry { file_name: "readme.txt".to_owned(), path: "/r/readme.txt".to_owned() },
    ];
    let hits = select_found("ReadMe", &entries);
    assert_eq!(hits, vec!["/r/README.md".to_owned(), "/r/readme.txt".to_owned()]);
    assert_eq!(
        find_report("ReadMe", "/r", &hits),
        Some("found 2 match(es) for `ReadMe`:\n- /r/README.md\n- /r/readme.txt\n".to_owned())
    );
    assert_eq!(
        find_report("zz", "/r", &[]),
        Some("no files matching `zz` found under /r (depth ≤ 8, .gitignore respected)".to_owned())
    );
    let many: Vec<FoundEntry> = (0..30).map(|i| FoundEntry { file_name: format!("f{i}"), path: format!("/p/f{i}") }).collect();
    assert_eq!(select_found("f", &many).len(), 20);
}

#[test]
fn urldecode_undoes_urlencode() {
    for s in ["", "a b&c=d/e?f", "café ☕ 日本", "100% +plus+", "~-._"] {
        assert_eq!(urldecode(&urlencode(s)), s);
    }
}

#[test]
fn edit_and_unlisted_tools_have_specs() {
    let e = mochi::tools::spec_of(ToolKind::Edit);
    assert_eq!(e.function.name, "Edit");
    assert_eq!(e.kind, "function");
    assert!(e.function.parameters.contains("\"replace_all\""));
    let f = mochi::tools::unlisted_spec(mochi::tools::UnlistedTool::FindFile);
    assert_eq!(f.function.name, "find_file");
    assert!(f.function.description.starts_with("Find files whose name matches a substring"));
    assert!(needs_permission("MultiEdit"));
}

#[test]
fn eight_tools_are_advertised_in_order() {
    let names: Vec<String> = available_tools().into_iter().map(|t| t.function.name).collect();
    assert_eq!(names, vec!["Read", "Glob", "WebSearch", "WebFetch", "Bash", "Write", "Edit", "MultiEdit"]);
    assert_eq!(tool_by_name("MultiEdit"), Some(ToolKind::MultiEdit));
    assert_eq!(tool_by_name("Write"), Some(ToolKind::Write));
}
