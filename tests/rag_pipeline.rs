use collab_core::rag_pipeline::{QueryIntent, RAGPipeline};

#[test]
fn test_intent_analysis() {
    let pipeline = RAGPipeline::new(170_000);

    let intent = pipeline.analyze_intent("refactor the calculateTotal function");
    match intent {
        QueryIntent::Refactor { symbol } => {
            assert_eq!(symbol, "calculateTotal");
        }
        _ => panic!("Expected Refactor intent"),
    }

    let intent = pipeline.analyze_intent("explain what UserService does");
    match intent {
        QueryIntent::Explain { symbol } => {
            assert_eq!(symbol, "UserService");
        }
        _ => panic!("Expected Explain intent"),
    }

    let intent = pipeline.analyze_intent("debug the error in main.ts");
    match intent {
        QueryIntent::Debug { file } => {
            assert_eq!(file, "main.ts");
        }
        _ => panic!("Expected Debug intent"),
    }

    let intent = pipeline.analyze_intent("hello world");
    match intent {
        QueryIntent::General => {}
        _ => panic!("Expected General intent"),
    }
}

#[test]
fn test_token_estimation() {
    let text = "This is a test string with approximately 10 words in it.";
    let tokens = RAGPipeline::estimate_tokens(text);

    assert!(tokens > 10 && tokens < 20);
}

#[test]
fn token_estimate_is_bytes_over_four() {
    assert_eq!(RAGPipeline::estimate_tokens(""), 0);
    assert_eq!(RAGPipeline::estimate_tokens("abc"), 0);
    assert_eq!(RAGPipeline::estimate_tokens("abcd"), 1);
    assert_eq!(RAGPipeline::estimate_tokens("This is a test string with approximately 10 words in it."), 14);
    // Four characters of two bytes each.
    assert_eq!(RAGPipeline::estimate_tokens("éééé"), 2);
}

#[test]
fn keywords_are_matched_case_insensitively() {
    let p = RAGPipeline::new(1000);
    // The upper-case keyword is itself the first word that looks like an identifier.
    match p.analyze_intent("REFACTOR my_helper please") {
        QueryIntent::Refactor { symbol } => assert_eq!(symbol, "REFACTOR"),
        other => panic!("unexpected {:?}", other),
    }
    match p.analyze_intent("so what is going on with (ParseError)?") {
        QueryIntent::Explain { symbol } => assert_eq!(symbol, "ParseError"),
        other => panic!("unexpected {:?}", other),
    }
}

#[test]
fn lowered_form_decides_the_intent() {
    let p = RAGPipeline::new(1000);
    // The keyword test reads the second argument only.
    match p.intent_from_lowered("fix foo_bar", "refactor") {
        QueryIntent::Refactor { symbol } => assert_eq!(symbol, "foo_bar"),
        other => panic!("unexpected {:?}", other),
    }
    assert!(matches!(p.intent_from_lowered("REFACTOR", "REFACTOR"), QueryIntent::General));
}

#[test]
fn earlier_keyword_group_wins() {
    let p = RAGPipeline::new(1000);
    match p.analyze_intent("explain and refactor fooBar") {
        QueryIntent::Refactor { symbol } => assert_eq!(symbol, "fooBar"),
        other => panic!("unexpected {:?}", other),
    }
    match p.analyze_intent("fix the unit test in app.py") {
        QueryIntent::Debug { file } => assert_eq!(file, "app.py"),
        other => panic!("unexpected {:?}", other),
    }
    match p.analyze_intent("write a unit test for Parser") {
        QueryIntent::Test { symbol } => assert_eq!(symbol, "Parser"),
        other => panic!("unexpected {:?}", other),
    }
}

#[test]
fn symbol_needs_more_than_two_bytes() {
    let p = RAGPipeline::new(1000);
    assert_eq!(p.extract_symbol_from_query("use A_ or Ab then XyZ"), "XyZ");
    assert_eq!(p.extract_symbol_from_query("nothing here"), "");
    assert_eq!(p.extract_symbol_from_query("  \"__init__\",  "), "__init__");
    // Two characters, three bytes.
    assert_eq!(p.extract_symbol_from_query("Éa"), "Éa");
}

#[test]
fn file_needs_a_known_extension() {
    let p = RAGPipeline::new(1000);
    assert_eq!(p.extract_file_from_query("see notes.txt and lib.rs"), "lib.rs");
    assert_eq!(p.extract_file_from_query("check src/App.tsx, please"), "");
    assert_eq!(p.extract_file_from_query("check\tsrc/App.tsx\nplease"), "src/App.tsx");
    assert_eq!(p.extract_file_from_query("no file"), "");
}

#[test]
fn pipeline_keeps_its_budget() {
    assert_eq!(RAGPipeline::new(170_000).max_context_tokens(), 170_000);
}
