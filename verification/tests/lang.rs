use rloc::backends::{
    c_backend, cpp_backend, css_backend, html_backend, java_backend, javascript_backend,
    jsx_backend, objective_c_backend, powershell_backend, python_backend, rust_backend,
    shell_backend, sql_backend, swift_backend, tsx_backend, typescript_backend, zig_backend,
    Backend,
};
use rloc::backends::LanguageBackend;
use rloc::lang::js::{classify_line, JMode};
use rloc::lines::{BackendFileAnalysis, LineKind};
use rloc::types::{ClassificationOptions, FileCategory, Language};

fn run(backend: Backend, path: &str, category: FileCategory, contents: &str, options: ClassificationOptions) -> BackendFileAnalysis {
    backend.classify_file(path, contents, contents.len() as u64, category, &options)
}

fn classify(backend: Backend, path: &str, contents: &str) -> BackendFileAnalysis {
    run(backend, path, FileCategory::Source, contents, ClassificationOptions::default())
}

fn line_kind(analysis: &BackendFileAnalysis, line_number: u32) -> &str {
    analysis
        .line_explanations
        .iter()
        .find(|line| line.line_number == line_number)
        .map(|line| line.kind.as_str())
        .unwrap()
}

fn js(language: Language) -> Backend {
    match language {
        Language::JavaScript => Backend::JsFamily(javascript_backend()),
        Language::TypeScript => Backend::JsFamily(typescript_backend()),
        Language::Jsx => Backend::JsFamily(jsx_backend()),
        _ => Backend::JsFamily(tsx_backend()),
    }
}

// C family

#[test]
fn c_comments_literals_and_mixed_lines_are_classified() {
    let analysis = classify(
        Backend::C(c_backend()),
        "root/main.c",
        "// line comment\n/* block comment\ncontinued */\nint value = 1;\nconst char *url = \"http://example/*path*/\";\nchar slash = '/';\nint next = 2; // trailing comment\n",
    );

    assert_eq!(analysis.metrics.language, Language::C);
    assert_eq!(analysis.metrics.comment_lines, 3);
    assert_eq!(analysis.metrics.code_lines, 3);
    assert_eq!(analysis.metrics.mixed_lines, 1);
    assert_eq!(line_kind(&analysis, 5), "code");
    assert_eq!(line_kind(&analysis, 6), "code");
    assert_eq!(line_kind(&analysis, 7), "mixed");
}

#[test]
fn every_c_family_backend_uses_the_shared_scanner() {
    for (extension, backend, language) in [
        ("cpp", Backend::Cpp(cpp_backend()), Language::Cpp),
        ("java", Backend::Java(java_backend()), Language::Java),
        ("swift", Backend::Swift(swift_backend()), Language::Swift),
        ("m", Backend::ObjectiveC(objective_c_backend()), Language::ObjectiveC),
    ] {
        let analysis = classify(
            backend,
            &format!("root/main.{extension}"),
            "value = 1;\n// note\nvalue = 2; /* note */\n",
        );

        assert_eq!(analysis.metrics.language, language);
        assert_eq!(analysis.metrics.code_lines, 1);
        assert_eq!(analysis.metrics.comment_lines, 1);
        assert_eq!(analysis.metrics.mixed_lines, 1);
    }
}

#[test]
fn zig_does_not_treat_block_markers_as_comments() {
    let analysis = classify(
        Backend::Zig(zig_backend()),
        "root/main.zig",
        "/* not a Zig comment */\n\\\\ multiline string content\n// Zig comment\n",
    );

    assert_eq!(analysis.metrics.language, Language::Zig);
    assert_eq!(analysis.metrics.code_lines, 2);
    assert_eq!(analysis.metrics.comment_lines, 1);
    assert_eq!(analysis.metrics.mixed_lines, 0);
    assert_eq!(line_kind(&analysis, 1), "code");
    assert_eq!(line_kind(&analysis, 2), "code");
}

#[test]
fn cpp_digit_separators_do_not_open_character_literals() {
    let analysis = classify(
        Backend::Cpp(cpp_backend()),
        "root/main.cpp",
        "auto value = 1'000; // trailing\n// next comment\n",
    );

    assert_eq!(analysis.metrics.mixed_lines, 1);
    assert_eq!(analysis.metrics.comment_lines, 1);
    assert_eq!(line_kind(&analysis, 1), "mixed");
    assert_eq!(line_kind(&analysis, 2), "comment");
}

#[test]
fn continued_c_string_clears_escape_before_the_next_line() {
    let analysis = classify(
        Backend::C(c_backend()),
        "root/main.c",
        "const char *value = \"continued\\\n\"; // trailing comment\n// next comment\n",
    );

    assert_eq!(analysis.metrics.code_lines, 1);
    assert_eq!(analysis.metrics.mixed_lines, 1);
    assert_eq!(analysis.metrics.comment_lines, 1);
    assert_eq!(line_kind(&analysis, 2), "mixed");
    assert_eq!(line_kind(&analysis, 3), "comment");
}

#[test]
fn backend_descriptors_report_expected_extensions() {
    assert_eq!(c_backend().descriptor().extensions, &["c", "h"]);
    assert_eq!(cpp_backend().descriptor().extensions, &["cpp"]);
    assert_eq!(java_backend().descriptor().extensions, &["java"]);
    assert_eq!(swift_backend().descriptor().extensions, &["swift"]);
    assert_eq!(objective_c_backend().descriptor().extensions, &["m"]);
    assert_eq!(zig_backend().descriptor().extensions, &["zig"]);
}

#[test]
fn c_mixed_lines_follow_the_toggle() {
    let options = ClassificationOptions {
        mixed_lines_as_code: false,
        ..ClassificationOptions::default()
    };
    let analysis = run(
        Backend::C(c_backend()),
        "root/main.c",
        FileCategory::Source,
        "int a = 1; // note\n\nint b;\n",
        options,
    );
    assert_eq!(analysis.metrics.mixed_lines, 0);
    assert_eq!(analysis.metrics.comment_lines, 1);
    assert_eq!(analysis.metrics.blank_lines, 1);
    assert_eq!(analysis.metrics.total_lines, 3);
    assert_eq!(analysis.line_explanations.len(), 2);
}

// PowerShell

fn classify_ps(contents: &str) -> BackendFileAnalysis {
    run(
        Backend::PowerShell(powershell_backend()),
        "root/script.ps1",
        FileCategory::Script,
        contents,
        ClassificationOptions::default(),
    )
}

#[test]
fn line_block_code_and_mixed_lines_are_classified() {
    let analysis = classify_ps("# line comment\n<# block comment\ncontinued\n#>\n$value = 1\n$next = 2 # trailing comment\n");

    assert_eq!(analysis.metrics.language, Language::PowerShell);
    assert_eq!(analysis.metrics.comment_lines, 4);
    assert_eq!(analysis.metrics.code_lines, 1);
    assert_eq!(analysis.metrics.mixed_lines, 1);
    assert_eq!(line_kind(&analysis, 1), "comment");
    assert_eq!(line_kind(&analysis, 5), "code");
    assert_eq!(line_kind(&analysis, 6), "mixed");
}

#[test]
fn comment_markers_inside_strings_are_code() {
    let analysis = classify_ps("$double = \"a#b\"\n$single = '<# #>'\n");

    assert_eq!(analysis.metrics.code_lines, 2);
    assert_eq!(analysis.metrics.comment_lines, 0);
    assert_eq!(analysis.metrics.mixed_lines, 0);
    assert_eq!(line_kind(&analysis, 1), "code");
    assert_eq!(line_kind(&analysis, 2), "code");
}

#[test]
fn backtick_escaped_quote_keeps_hash_inside_the_string() {
    let analysis = classify_ps("$value = \"x `\" y # z\"\n");

    assert_eq!(analysis.metrics.code_lines, 1);
    assert_eq!(analysis.metrics.comment_lines, 0);
    assert_eq!(analysis.metrics.mixed_lines, 0);
    assert_eq!(line_kind(&analysis, 1), "code");
}

#[test]
fn backend_descriptor_reports_ps1() {
    assert_eq!(powershell_backend().descriptor().extensions, &["ps1"]);
}

// JavaScript family

#[test]
fn jsdoc_blocks_are_doc_lines() {
    let analysis = classify(
        js(Language::JavaScript),
        "root/src/app.js",
        "/**\n * Greets a user.\n * Keeps docs visible.\n */\nexport function greet() {\n  return \"hi\";\n}\n",
    );

    assert_eq!(analysis.metrics.doc_lines, 4);
    assert_eq!(analysis.metrics.code_lines, 3);
    assert_eq!(line_kind(&analysis, 2), "doc");
}

#[test]
fn template_literals_do_not_trigger_false_comment_detection() {
    let analysis = classify(
        js(Language::TypeScript),
        "root/src/snippet.ts",
        "const snippet = `https://example.com/path`;\nconsole.log(snippet);\n",
    );

    assert_eq!(analysis.metrics.code_lines, 2);
    assert_eq!(analysis.metrics.comment_lines, 0);
    assert_eq!(analysis.metrics.mixed_lines, 0);
    assert_eq!(line_kind(&analysis, 1), "code");
}

#[test]
fn tsx_and_jsx_inline_comments_become_mixed_lines() {
    let source = "export const App = () => (\n  <div>{/* note */}Hello</div>\n);\n";
    let jsx = classify(js(Language::Jsx), "root/src/App.jsx", source);
    let tsx = classify(js(Language::Tsx), "root/src/App.tsx", source);

    assert_eq!(jsx.metrics.mixed_lines, 1);
    assert_eq!(tsx.metrics.mixed_lines, 1);
    assert_eq!(line_kind(&jsx, 2), "mixed");
    assert_eq!(line_kind(&tsx, 2), "mixed");
}

#[test]
fn jsdoc_blocks_can_be_counted_as_code() {
    let mut options = ClassificationOptions::default();
    options.count_doc_comments = false;
    let analysis = run(
        js(Language::JavaScript),
        "root/src/app.js",
        FileCategory::Source,
        "/** docs */\nexport const answer = 42;\n",
        options,
    );

    assert_eq!(analysis.metrics.doc_lines, 0);
    assert_eq!(analysis.metrics.code_lines, 2);
    assert_eq!(line_kind(&analysis, 1), "code");
}

#[test]
fn classify_mixed_lines_can_be_counted_as_comments() {
    let mut options = ClassificationOptions::default();
    options.mixed_lines_as_code = false;
    let analysis = run(
        js(Language::TypeScript),
        "root/src/app.ts",
        FileCategory::Source,
        "const answer = 42; // note\nconsole.log(answer);\n",
        options,
    );

    assert_eq!(analysis.metrics.mixed_lines, 0);
    assert_eq!(analysis.metrics.comment_lines, 1);
    assert_eq!(analysis.metrics.code_lines, 1);
    assert_eq!(line_kind(&analysis, 1), "comment");
}

#[test]
fn regex_literals_do_not_trigger_false_line_comment_detection() {
    let analysis = classify(
        js(Language::TypeScript),
        "root/src/app.ts",
        "const re = /https?:\\/\\//;\nconsole.log(re.test(url));\n",
    );

    assert_eq!(analysis.metrics.code_lines, 2);
    assert_eq!(analysis.metrics.comment_lines, 0);
    assert_eq!(analysis.metrics.mixed_lines, 0);
    assert_eq!(line_kind(&analysis, 1), "code");
}

#[test]
fn regex_literals_do_not_trigger_false_block_comment_detection() {
    let analysis = classify(
        js(Language::JavaScript),
        "root/src/app.js",
        "const re = /\\/\\*foo/;\nconsole.log(re);\n",
    );

    assert_eq!(analysis.metrics.code_lines, 2);
    assert_eq!(analysis.metrics.comment_lines, 0);
    assert_eq!(analysis.metrics.mixed_lines, 0);
    assert_eq!(line_kind(&analysis, 1), "code");
}

#[test]
fn js_family_metrics_name_the_backend_language() {
    for language in [Language::JavaScript, Language::TypeScript, Language::Jsx, Language::Tsx] {
        let analysis = classify(js(language), "root/src/a.js", "let a = 1;\n");
        assert_eq!(analysis.metrics.language, language);
        assert_eq!(analysis.metrics.code_lines, 1);
        assert_eq!(analysis.metrics.path, "root/src/a.js");
    }
}

// Python

fn classify_py(contents: &str, options: ClassificationOptions) -> BackendFileAnalysis {
    run(
        Backend::Python(python_backend()),
        "root/src/module.py",
        FileCategory::Source,
        contents,
        options,
    )
}

#[test]
fn module_class_and_function_docstrings_are_doc_lines() {
    let analysis = classify_py(
        "\"\"\"module\ndetails\ndoc\"\"\"\nclass Greeter:\n    \"\"\"class\n    details\n    doc\"\"\"\n    def hello(self):\n        \"\"\"function\n        details\n        doc\"\"\"\n        return \"hi\"\n",
        ClassificationOptions::default(),
    );

    assert_eq!(analysis.metrics.doc_lines, 9);
    assert_eq!(analysis.metrics.code_lines, 3);
    assert_eq!(line_kind(&analysis, 2), "doc");
    assert_eq!(line_kind(&analysis, 6), "doc");
    assert_eq!(line_kind(&analysis, 10), "doc");
}

#[test]
fn regular_multiline_strings_inside_code_are_not_docstrings() {
    let analysis = classify_py(
        "def build_query():\n    query = \"\"\"select\n    *\n    from widgets\"\"\"\n    return query\n",
        ClassificationOptions::default(),
    );

    assert_eq!(analysis.metrics.doc_lines, 0);
    assert_eq!(analysis.metrics.code_lines, 5);
    assert_eq!(line_kind(&analysis, 2), "code");
    assert_eq!(line_kind(&analysis, 3), "code");
    assert_eq!(line_kind(&analysis, 4), "code");
}

#[test]
fn inline_hash_comments_are_mixed_lines() {
    let analysis = classify_py(
        "def build():\n    value = 1  # note\n    return value\n",
        ClassificationOptions::default(),
    );

    assert_eq!(analysis.metrics.mixed_lines, 1);
    assert_eq!(analysis.metrics.code_lines, 2);
    assert_eq!(line_kind(&analysis, 2), "mixed");
}

#[test]
fn python_mixed_lines_can_be_counted_as_comments() {
    let mut options = ClassificationOptions::default();
    options.mixed_lines_as_code = false;
    let analysis = classify_py(
        "def build():\n    value = 1  # note\n    return value\n",
        options,
    );

    assert_eq!(analysis.metrics.mixed_lines, 0);
    assert_eq!(analysis.metrics.comment_lines, 1);
    assert_eq!(analysis.metrics.code_lines, 2);
    assert_eq!(line_kind(&analysis, 2), "comment");
}

#[test]
fn docstrings_can_be_counted_as_code() {
    let mut options = ClassificationOptions::default();
    options.count_docstrings_as_comments = false;
    let analysis = classify_py("\"\"\"module\ndocs\nblock\"\"\"\n", options);

    assert_eq!(analysis.metrics.doc_lines, 0);
    assert_eq!(analysis.metrics.code_lines, 3);
    assert_eq!(line_kind(&analysis, 2), "code");
}

// Rust

fn classify_rs(contents: &str, options: ClassificationOptions) -> BackendFileAnalysis {
    run(
        Backend::Rust(rust_backend()),
        "root/src/lib.rs",
        FileCategory::Source,
        contents,
        options,
    )
}

#[test]
fn classifies_nested_block_comments_and_doc_comments() {
    let analysis = classify_rs(
        "/**\n\
         * crate docs\n\
         */\n\
        fn main() {\n\
            /* outer\n\
               /* nested */\n\
               still outer\n\
            */\n\
        }\n",
        ClassificationOptions::default(),
    );

    assert_eq!(analysis.metrics.doc_lines, 3);
    assert_eq!(analysis.metrics.comment_lines, 4);
    assert_eq!(analysis.metrics.code_lines, 2);
    assert_eq!(line_kind(&analysis, 1), "doc");
    assert_eq!(line_kind(&analysis, 2), "doc");
    assert_eq!(line_kind(&analysis, 3), "doc");
    assert_eq!(line_kind(&analysis, 7), "comment");
    assert_eq!(line_kind(&analysis, 8), "comment");
}

#[test]
fn ignores_comment_markers_inside_raw_strings() {
    let analysis = classify_rs(
        "fn main() {\n\
            let template = r#\"// not comment /* still string */\"#;\n\
        }\n",
        ClassificationOptions::default(),
    );

    assert_eq!(analysis.metrics.code_lines, 3);
    assert_eq!(analysis.metrics.comment_lines, 0);
    assert_eq!(analysis.metrics.mixed_lines, 0);
    assert_eq!(line_kind(&analysis, 2), "code");
}

#[test]
fn detects_inline_comment_as_mixed() {
    let analysis = classify_rs(
        "fn main() {\n\
            let value = /* units */ 1;\n\
        }\n",
        ClassificationOptions::default(),
    );

    assert_eq!(analysis.metrics.code_lines, 2);
    assert_eq!(analysis.metrics.comment_lines, 0);
    assert_eq!(analysis.metrics.mixed_lines, 1);
    assert_eq!(line_kind(&analysis, 2), "mixed");
}

#[test]
fn doc_comments_can_be_counted_as_code() {
    let mut options = ClassificationOptions::default();
    options.count_doc_comments = false;
    let analysis = classify_rs("/// crate docs\nfn main() {}\n", options);

    assert_eq!(analysis.metrics.doc_lines, 0);
    assert_eq!(analysis.metrics.code_lines, 2);
    assert_eq!(line_kind(&analysis, 1), "code");
}

#[test]
fn rust_mixed_lines_can_be_counted_as_comments() {
    let mut options = ClassificationOptions::default();
    options.mixed_lines_as_code = false;
    let analysis = classify_rs("fn main() {\n    let value = 1; // note\n}\n", options);

    assert_eq!(analysis.metrics.mixed_lines, 0);
    assert_eq!(analysis.metrics.comment_lines, 1);
    assert_eq!(analysis.metrics.code_lines, 2);
    assert_eq!(line_kind(&analysis, 2), "comment");
}

// Shell

#[test]
fn shebang_is_counted_as_code() {
    let analysis = classify(
        Backend::Shell(shell_backend()),
        "root/script.sh",
        "#!/usr/bin/env bash\necho hello\n",
    );

    assert_eq!(analysis.metrics.code_lines, 2);
    assert_eq!(analysis.metrics.comment_lines, 0);
    assert_eq!(analysis.metrics.mixed_lines, 0);
    assert_eq!(line_kind(&analysis, 1), "code");
}

#[test]
fn inline_hash_comment_becomes_mixed() {
    let analysis = classify(
        Backend::Shell(shell_backend()),
        "root/script.sh",
        "echo hello # note\nprintf '%s\\n' done\n",
    );

    assert_eq!(analysis.metrics.code_lines, 1);
    assert_eq!(analysis.metrics.comment_lines, 0);
    assert_eq!(analysis.metrics.mixed_lines, 1);
    assert_eq!(line_kind(&analysis, 1), "mixed");
}

#[test]
fn hash_inside_quotes_does_not_start_a_comment() {
    let analysis = classify(
        Backend::Shell(shell_backend()),
        "root/.bashrc",
        "export PROMPT='# ready'\necho \"# still code\"\n",
    );

    assert_eq!(analysis.metrics.code_lines, 2);
    assert_eq!(analysis.metrics.comment_lines, 0);
    assert_eq!(analysis.metrics.mixed_lines, 0);
    assert_eq!(line_kind(&analysis, 1), "code");
}

#[test]
fn heredoc_bodies_are_not_classified_as_comments() {
    let analysis = classify(
        Backend::Shell(shell_backend()),
        "root/script.sh",
        "cat <<'EOF'\n# not a comment\nvalue=true\nEOF\n",
    );

    assert_eq!(analysis.metrics.code_lines, 4);
    assert_eq!(analysis.metrics.comment_lines, 0);
    assert_eq!(analysis.metrics.mixed_lines, 0);
    assert_eq!(line_kind(&analysis, 2), "code");
}

#[test]
fn shell_comment_after_heredoc_ends_is_a_comment() {
    let analysis = classify(
        Backend::Shell(shell_backend()),
        "root/script.sh",
        "cat <<EOF\n# body\nEOF\n# real comment\n",
    );
    assert_eq!(analysis.metrics.code_lines, 3);
    assert_eq!(analysis.metrics.comment_lines, 1);
    assert_eq!(line_kind(&analysis, 4), "comment");
}

// SQL

#[test]
fn double_dash_comments_are_comment_or_mixed_lines() {
    let analysis = classify(
        Backend::Sql(sql_backend()),
        "root/schema.sql",
        "-- schema note\nselect 1 -- inline note\n",
    );

    assert_eq!(analysis.metrics.comment_lines, 1);
    assert_eq!(analysis.metrics.mixed_lines, 1);
    assert_eq!(line_kind(&analysis, 1), "comment");
    assert_eq!(line_kind(&analysis, 2), "mixed");
}

#[test]
fn block_comments_span_multiple_lines() {
    let analysis = classify(
        Backend::Sql(sql_backend()),
        "root/schema.sql",
        "/*\n * schema note\n */\nselect 1;\n",
    );

    assert_eq!(analysis.metrics.comment_lines, 3);
    assert_eq!(analysis.metrics.code_lines, 1);
    assert_eq!(line_kind(&analysis, 2), "comment");
}

#[test]
fn comment_markers_inside_strings_do_not_start_comments() {
    let analysis = classify(
        Backend::Sql(sql_backend()),
        "root/query.psql",
        "select '-- not comment' as note;\nselect \"/* not comment */\" as ident;\n",
    );

    assert_eq!(analysis.metrics.code_lines, 2);
    assert_eq!(analysis.metrics.comment_lines, 0);
    assert_eq!(analysis.metrics.mixed_lines, 0);
    assert_eq!(line_kind(&analysis, 1), "code");
}

#[test]
fn dollar_quoted_strings_ignore_comment_markers() {
    let analysis = classify(
        Backend::Sql(sql_backend()),
        "root/query.psql",
        "select $$-- not a comment$$;\nselect $tag$/* still not comment */$tag$;\n",
    );

    assert_eq!(analysis.metrics.code_lines, 2);
    assert_eq!(analysis.metrics.comment_lines, 0);
    assert_eq!(analysis.metrics.mixed_lines, 0);
    assert_eq!(line_kind(&analysis, 1), "code");
}

// HTML and CSS

#[test]
fn html_comments_are_comment_lines_and_markup_is_code() {
    let analysis = classify(
        Backend::Html(html_backend()),
        "root/index.html",
        "<div>Hello</div>\n<!-- note -->\n",
    );

    assert_eq!(analysis.metrics.code_lines, 1);
    assert_eq!(analysis.metrics.comment_lines, 1);
    assert_eq!(line_kind(&analysis, 1), "code");
    assert_eq!(line_kind(&analysis, 2), "comment");
}

#[test]
fn html_text_content_is_counted_as_code() {
    let analysis = classify(
        Backend::Html(html_backend()),
        "root/page.gohtml",
        "<main>\n  Hello world\n</main>\n",
    );

    assert_eq!(analysis.metrics.code_lines, 3);
    assert_eq!(analysis.metrics.comment_lines, 0);
    assert_eq!(line_kind(&analysis, 2), "code");
}

#[test]
fn css_block_comments_are_comment_lines() {
    let analysis = classify(
        Backend::Css(css_backend()),
        "root/app.css",
        "/* theme note */\nbody { color: red; }\n",
    );

    assert_eq!(analysis.metrics.comment_lines, 1);
    assert_eq!(analysis.metrics.code_lines, 1);
    assert_eq!(line_kind(&analysis, 1), "comment");
}

#[test]
fn css_comment_markers_inside_strings_do_not_start_comments() {
    let analysis = classify(
        Backend::Css(css_backend()),
        "root/app.css",
        "body::before { content: \"/* not comment */\"; }\n",
    );

    assert_eq!(analysis.metrics.code_lines, 1);
    assert_eq!(analysis.metrics.comment_lines, 0);
    assert_eq!(analysis.metrics.mixed_lines, 0);
    assert_eq!(line_kind(&analysis, 1), "code");
}

#[test]
fn whitespace_js_line_is_blank_and_keeps_the_stack() {
    let mut stack = vec![JMode::Code { template_depth: None }];
    let line: Vec<char> = " \t \r".chars().collect();
    assert_eq!(classify_line(&line, &mut stack), LineKind::Blank);
    assert_eq!(stack, vec![JMode::Code { template_depth: None }]);
    let mut nested = vec![
        JMode::Code { template_depth: None },
        JMode::Template { escaped: false },
        JMode::Code { template_depth: Some(1) },
    ];
    let before = nested.clone();
    assert_eq!(classify_line(&"   ".chars().collect::<Vec<_>>(), &mut nested), LineKind::Blank);
    assert_eq!(nested, before);
}

#[test]
fn js_base_mode_survives_a_stray_closing_brace() {
    let mut stack = vec![JMode::Code { template_depth: None }];
    let line: Vec<char> = "} } `a ${ b".chars().collect();
    classify_line(&line, &mut stack);
    assert_eq!(stack[0], JMode::Code { template_depth: None });
}

#[test]
fn backends_classify_through_the_backend_trait() {
    let options = ClassificationOptions::default();
    let c = c_backend();
    assert_eq!(LanguageBackend::descriptor(&c).language, Language::C);
    let analysis = LanguageBackend::classify_file(&c, "src/a.c", "int x;\n// note\n", 16, FileCategory::Source, &options);
    assert_eq!(analysis.metrics.language, Language::C);
    assert_eq!(analysis.metrics.code_lines, 1);
    assert_eq!(analysis.metrics.comment_lines, 1);
    assert_eq!(analysis.metrics.bytes, 16);
    let ts = typescript_backend();
    assert_eq!(LanguageBackend::descriptor(&ts).display_name, "TypeScript");
    let analysis = LanguageBackend::classify_file(&ts, "src/a.ts", "let a = 1;\n", 11, FileCategory::Test, &options);
    assert_eq!(analysis.metrics.language, Language::TypeScript);
    assert_eq!(analysis.metrics.category, FileCategory::Test);
    assert!(analysis.warnings.is_empty());
    let boxed: Vec<Box<dyn LanguageBackend>> = vec![Box::new(rust_backend()), Box::new(Backend::Python(python_backend()))];
    assert_eq!(boxed[0].descriptor().language, Language::Rust);
    assert_eq!(boxed[1].descriptor().language, Language::Python);
}

#[test]
fn python_docstrings_from_the_tree_count_as_doc() {
    let options = ClassificationOptions::default();
    let source = "def f():\n    \"\"\"Say hi.\"\"\"\n    return 1\n";
    let analysis = run(Backend::Python(python_backend()), "a.py", FileCategory::Source, source, options);
    assert_eq!(analysis.metrics.doc_lines, 1);
    assert_eq!(analysis.metrics.code_lines, 2);
    assert!(analysis.warnings.is_empty());
}

#[test]
fn whitespace_js_line_is_blank_over_any_code_mode() {
    let mut stack = vec![JMode::Code { template_depth: None }, JMode::Code { template_depth: None }];
    assert_eq!(classify_line(&"\t  ".chars().collect::<Vec<_>>(), &mut stack), LineKind::Blank);
    assert_eq!(stack.len(), 2);
    assert_eq!(stack[0], JMode::Code { template_depth: None });
}

#[test]
fn structural_docstrings_come_back_as_line_numbers() {
    let source = "\"\"\"Module doc.\"\"\"\n\ndef f():\n    \"\"\"Body doc.\"\"\"\n    return 1\n";
    let lines: Vec<Vec<char>> = source.lines().map(|l| l.chars().collect()).collect();
    let found = rloc::lang::pydoc::collect_structural_docstring_lines(&lines);
    assert_eq!(found.into_iter().collect::<Vec<usize>>(), vec![1, 4]);
}
