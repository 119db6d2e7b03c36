use jsonp_runtime::assemble::{
    defined_globals, generate, prefetch_request, preload_request, rendered, HookOutcome,
    RuntimeFlags,
};
use jsonp_runtime::fragments::{CrossOrigin, OutputConfig, ScriptType};
use jsonp_runtime::matcher::ConditionMap;
use jsonp_runtime::template::{fill, Bindings, FragmentKind, GenError, Piece, Placeholder, Template};

fn no_flags() -> RuntimeFlags {
    RuntimeFlags {
        base_uri: false,
        loading: false,
        on_chunk_load: false,
        hmr: false,
        hmr_manifest: false,
        callback: false,
        prefetch: false,
        preload: false,
        fetch_priority: false,
    }
}

fn default_config() -> OutputConfig {
    OutputConfig {
        global_object: "self".to_string(),
        chunk_loading_global: "webpackChunk".to_string(),
        hot_update_global: "webpackHotUpdate".to_string(),
        cross_origin: CrossOrigin::Disabled,
        script_type: ScriptType::Omitted,
        charset: true,
        base_uri: None,
    }
}

fn map_of(pairs: &[(&str, bool)]) -> ConditionMap {
    let mut m = ConditionMap::new();
    for (id, v) in pairs {
        m.insert(id, *v);
    }
    m
}

fn kinds(a: &jsonp_runtime::assemble::Artifact) -> Vec<FragmentKind> {
    a.fragments.iter().map(|f| f.kind).collect()
}

#[test]
fn ensure_chunk_only_emits_state_table_then_handler() {
    // condition map {A: true, B: true, C: false}, ensure-chunk flag only
    let m = map_of(&[("A", true), ("B", true), ("C", false)]);
    let flags = RuntimeFlags { loading: true, ..no_flags() };
    let a = generate(
        "main",
        &flags,
        &default_config(),
        &m,
        &Vec::new(),
        &HookOutcome::NoHook,
        &HookOutcome::NoHook,
    )
    .unwrap();
    assert_eq!(kinds(&a), vec![FragmentKind::StateTable, FragmentKind::EnsureChunk]);
    let text = rendered(&a);
    assert!(text.contains("var installedChunks = {};"));
    assert!(text.contains("(chunkId !== \"C\")"));
    assert!(!text.contains("hmr"));
    assert!(!text.contains("webpackHotUpdate"));
}

#[test]
fn constant_false_matcher_degenerates_ensure_chunk_but_keeps_hmr() {
    // HMR fragments are flag-gated independently of the matcher
    let m = map_of(&[("X", false), ("Y", false)]);
    let flags = RuntimeFlags { loading: true, hmr: true, hmr_manifest: true, ..no_flags() };
    let a = generate(
        "main",
        &flags,
        &default_config(),
        &m,
        &Vec::new(),
        &HookOutcome::NoHook,
        &HookOutcome::NoHook,
    )
    .unwrap();
    assert_eq!(
        kinds(&a),
        vec![
            FragmentKind::StateTable,
            FragmentKind::EnsureChunk,
            FragmentKind::HmrUpdate,
            FragmentKind::HmrManifest,
        ]
    );
    let ensure = &a.fragments[1].text;
    assert!(ensure.contains("installedChunks[chunkId] = 0;"));
    assert!(!ensure.contains("__webpack_require__.l("));
    assert!(!ensure.contains("new Promise"));
    let hmr = &a.fragments[2].text;
    assert!(hmr.contains("loadUpdateChunk"));
    assert!(hmr.contains("self[\"webpackHotUpdate\"]"));
    assert!(a.fragments[3].text.contains("__webpack_require__.hmrM"));
}

#[test]
fn constant_false_matcher_drops_resource_hint_fragments() {
    let m = map_of(&[("X", false)]);
    let flags = RuntimeFlags { prefetch: true, preload: true, ..no_flags() };
    let a = generate(
        "main",
        &flags,
        &default_config(),
        &m,
        &Vec::new(),
        &HookOutcome::NoHook,
        &HookOutcome::NoHook,
    )
    .unwrap();
    assert_eq!(kinds(&a), vec![FragmentKind::StateTable]);
    assert!(prefetch_request("main", &flags, &default_config(), &m).is_none());
    assert!(preload_request("main", &flags, &default_config(), &m).is_none());
}

#[test]
fn constant_true_matcher_omits_the_fallback_branch() {
    let m = map_of(&[("A", true)]);
    let flags = RuntimeFlags { loading: true, ..no_flags() };
    let a = generate(
        "main",
        &flags,
        &default_config(),
        &m,
        &Vec::new(),
        &HookOutcome::NoHook,
        &HookOutcome::NoHook,
    )
    .unwrap();
    let text = rendered(&a);
    assert!(text.contains("if (true) {"));
    assert!(!text.contains("else installedChunks[chunkId] = 0;"));
}

#[test]
fn fragments_keep_the_fixed_order_for_a_scattered_subset() {
    let m = map_of(&[("A", true)]);
    let flags = RuntimeFlags {
        base_uri: true,
        on_chunk_load: true,
        callback: true,
        preload: true,
        ..no_flags()
    };
    let a = generate(
        "main",
        &flags,
        &default_config(),
        &m,
        &Vec::new(),
        &HookOutcome::NoHook,
        &HookOutcome::NoHook,
    )
    .unwrap();
    assert_eq!(
        kinds(&a),
        vec![
            FragmentKind::BaseUri,
            FragmentKind::StateTable,
            FragmentKind::Preload,
            FragmentKind::OnChunkLoaded,
            FragmentKind::Callback,
        ]
    );
}

#[test]
fn base_uri_fragment_quotes_the_configured_uri() {
    let m = map_of(&[("A", true)]);
    let flags = RuntimeFlags { base_uri: true, ..no_flags() };
    let mut config = default_config();
    config.base_uri = Some("https://example.com/\"app\"".to_string());
    let a = generate(
        "main",
        &flags,
        &config,
        &m,
        &Vec::new(),
        &HookOutcome::NoHook,
        &HookOutcome::NoHook,
    )
    .unwrap();
    assert_eq!(
        a.fragments[0].text,
        "__webpack_require__.b = \"https://example.com/\\\"app\\\"\";\n"
    );
}

#[test]
fn base_uri_fragment_defaults_to_the_document_location() {
    let m = map_of(&[("A", true)]);
    let flags = RuntimeFlags { base_uri: true, ..no_flags() };
    let a = generate(
        "main",
        &flags,
        &default_config(),
        &m,
        &Vec::new(),
        &HookOutcome::NoHook,
        &HookOutcome::NoHook,
    )
    .unwrap();
    assert_eq!(
        a.fragments[0].text,
        "__webpack_require__.b = document.baseURI || self.location.href;\n"
    );
}

#[test]
fn state_table_seeds_initial_chunks() {
    let m = map_of(&[("A", true)]);
    let initial = vec!["main".to_string(), "runtime".to_string()];
    let a = generate(
        "main",
        &no_flags(),
        &default_config(),
        &m,
        &initial,
        &HookOutcome::NoHook,
        &HookOutcome::NoHook,
    )
    .unwrap();
    assert!(a.fragments[0]
        .text
        .contains("var installedChunks = {\"main\":0,\"runtime\":0};"));
}

#[test]
fn state_table_under_hmr_reuses_the_surviving_table() {
    let m = map_of(&[("A", true)]);
    let flags = RuntimeFlags { hmr: true, ..no_flags() };
    let a = generate(
        "main",
        &flags,
        &default_config(),
        &m,
        &vec!["main".to_string()],
        &HookOutcome::NoHook,
        &HookOutcome::NoHook,
    )
    .unwrap();
    assert!(a.fragments[0].text.contains(
        "var installedChunks = __webpack_require__.hmrS_jsonp = __webpack_require__.hmrS_jsonp || {\"main\":0};"
    ));
}

#[test]
fn fetch_priority_threads_the_extra_parameter() {
    let m = map_of(&[("A", true)]);
    let flags = RuntimeFlags { loading: true, fetch_priority: true, ..no_flags() };
    let a = generate(
        "main",
        &flags,
        &default_config(),
        &m,
        &Vec::new(),
        &HookOutcome::NoHook,
        &HookOutcome::NoHook,
    )
    .unwrap();
    let text = rendered(&a);
    assert!(text.contains("function (chunkId, promises, fetchPriority)"));
    assert!(text.contains("chunkId, fetchPriority);"));
}

#[test]
fn callback_fragment_names_the_chunk_loading_global() {
    let m = map_of(&[("A", true)]);
    let flags = RuntimeFlags { callback: true, on_chunk_load: true, ..no_flags() };
    let a = generate(
        "main",
        &flags,
        &default_config(),
        &m,
        &Vec::new(),
        &HookOutcome::NoHook,
        &HookOutcome::NoHook,
    )
    .unwrap();
    let text = rendered(&a);
    assert!(text.contains(
        "var chunkLoadingGlobal = self[\"webpackChunk\"] = self[\"webpackChunk\"] || [];"
    ));
    assert!(text.contains("return __webpack_require__.O(result);"));
    assert!(text.contains("__webpack_require__.O = function (result, chunkIds, fn, priority)"));
}

#[test]
fn identity_hook_yields_byte_identical_output() {
    let m = map_of(&[("A", true), ("B", false)]);
    let flags = RuntimeFlags { prefetch: true, preload: true, ..no_flags() };
    let config = default_config();
    let initial = vec!["main".to_string()];
    let plain = generate(
        "main",
        &flags,
        &config,
        &m,
        &initial,
        &HookOutcome::NoHook,
        &HookOutcome::NoHook,
    )
    .unwrap();
    let prefetch_draft = prefetch_request("main", &flags, &config, &m).unwrap();
    let preload_draft = preload_request("main", &flags, &config, &m).unwrap();
    let decorated = generate(
        "main",
        &flags,
        &config,
        &m,
        &initial,
        &HookOutcome::Replaced(prefetch_draft),
        &HookOutcome::Replaced(preload_draft),
    )
    .unwrap();
    assert_eq!(rendered(&plain), rendered(&decorated));
}

#[test]
fn appending_hook_adds_its_marker_exactly_once() {
    let m = map_of(&[("A", true)]);
    let flags = RuntimeFlags { prefetch: true, preload: true, loading: true, ..no_flags() };
    let config = default_config();
    let plain = generate(
        "main",
        &flags,
        &config,
        &m,
        &Vec::new(),
        &HookOutcome::NoHook,
        &HookOutcome::NoHook,
    )
    .unwrap();
    let mut draft = prefetch_request("main", &flags, &config, &m).unwrap();
    draft.push_str("/* MARKER */");
    let decorated = generate(
        "main",
        &flags,
        &config,
        &m,
        &Vec::new(),
        &HookOutcome::Replaced(draft),
        &HookOutcome::NoHook,
    )
    .unwrap();
    let text = rendered(&decorated);
    assert_eq!(text.matches("/* MARKER */").count(), 1);
    // every fragment but the decorated one is unaffected
    assert_eq!(plain.fragments.len(), decorated.fragments.len());
    for (p, d) in plain.fragments.iter().zip(decorated.fragments.iter()) {
        assert_eq!(p.kind, d.kind);
        if p.kind != FragmentKind::Prefetch {
            assert_eq!(p.text, d.text);
        }
    }
}

#[test]
fn prefetch_draft_carries_charset_and_cross_origin() {
    let m = map_of(&[("A", true)]);
    let flags = RuntimeFlags { prefetch: true, ..no_flags() };
    let mut config = default_config();
    config.cross_origin = CrossOrigin::Custom("anonymous".to_string());
    let draft = prefetch_request("main", &flags, &config, &m).unwrap();
    assert!(draft.contains("link.charset = 'utf-8';"));
    assert!(draft.contains("link.crossOrigin = \"anonymous\";"));
    assert!(draft.contains("link.rel = \"prefetch\";"));
}

#[test]
fn preload_draft_follows_script_type_and_credentials_mode() {
    let m = map_of(&[("A", true)]);
    let flags = RuntimeFlags { preload: true, ..no_flags() };
    let mut config = default_config();
    config.cross_origin = CrossOrigin::UseCredentials;
    config.script_type = ScriptType::Other("text/javascript".to_string());
    let draft = preload_request("main", &flags, &config, &m).unwrap();
    assert!(draft.contains("link.type = \"text/javascript\";"));
    assert!(draft.contains("link.rel = \"preload\";"));
    assert!(draft.contains("link.as = \"script\";"));
    assert!(draft.contains("link.crossOrigin = \"use-credentials\";"));

    config.script_type = ScriptType::Module;
    let draft = preload_request("main", &flags, &config, &m).unwrap();
    assert!(draft.contains("link.rel = \"modulepreload\";"));
    assert!(!draft.contains("link.type ="));
}

#[test]
fn custom_cross_origin_in_preload_guards_foreign_origins() {
    let m = map_of(&[("A", true)]);
    let flags = RuntimeFlags { preload: true, ..no_flags() };
    let mut config = default_config();
    config.cross_origin = CrossOrigin::Custom("anonymous".to_string());
    let draft = preload_request("main", &flags, &config, &m).unwrap();
    assert!(draft.contains("if (link.href.indexOf(window.location.origin + '/') !== 0)"));
    assert!(draft.contains("link.crossOrigin = \"anonymous\";"));
}

#[test]
fn empty_custom_cross_origin_fails_fast() {
    let m = map_of(&[("A", true)]);
    let mut config = default_config();
    config.cross_origin = CrossOrigin::Custom(String::new());
    let r = generate(
        "main",
        &no_flags(),
        &config,
        &m,
        &Vec::new(),
        &HookOutcome::NoHook,
        &HookOutcome::NoHook,
    );
    match r {
        Err(GenError::InvalidCrossOrigin { chunk }) => assert_eq!(chunk, "main"),
        _ => panic!("expected the invalid cross-origin error"),
    }
}

#[test]
fn failed_prefetch_hook_aborts_generation_for_the_chunk() {
    let m = map_of(&[("A", true)]);
    let flags = RuntimeFlags { prefetch: true, ..no_flags() };
    let r = generate(
        "main",
        &flags,
        &default_config(),
        &m,
        &Vec::new(),
        &HookOutcome::Failed("extension exploded".to_string()),
        &HookOutcome::NoHook,
    );
    match r {
        Err(GenError::HookFailed { chunk, fragment, message }) => {
            assert_eq!(chunk, "main");
            assert_eq!(fragment, FragmentKind::Prefetch);
            assert_eq!(message, "extension exploded");
        },
        _ => panic!("expected the hook failure error"),
    }
}

#[test]
fn failed_preload_hook_aborts_generation_for_the_chunk() {
    let m = map_of(&[("A", true)]);
    let flags = RuntimeFlags { preload: true, ..no_flags() };
    let r = generate(
        "main",
        &flags,
        &default_config(),
        &m,
        &Vec::new(),
        &HookOutcome::NoHook,
        &HookOutcome::Failed("no".to_string()),
    );
    match r {
        Err(GenError::HookFailed { fragment, .. }) => {
            assert_eq!(fragment, FragmentKind::Preload);
        },
        _ => panic!("expected the hook failure error"),
    }
}

#[test]
fn failed_hook_of_an_unselected_fragment_is_ignored() {
    let m = map_of(&[("A", true)]);
    let r = generate(
        "main",
        &no_flags(),
        &default_config(),
        &m,
        &Vec::new(),
        &HookOutcome::Failed("never called".to_string()),
        &HookOutcome::Failed("never called".to_string()),
    );
    assert!(r.is_ok());
}

#[test]
fn filling_a_template_with_a_missing_value_is_an_error() {
    let t = Template {
        pieces: vec![
            Piece::Lit("if (".to_string()),
            Piece::Hole(Placeholder::JsMatcher),
            Piece::Lit(")".to_string()),
        ],
    };
    let b = Bindings::empty();
    match fill("main", FragmentKind::EnsureChunk, &t, &b) {
        Err(GenError::UnresolvedPlaceholder { chunk, fragment, placeholder }) => {
            assert_eq!(chunk, "main");
            assert_eq!(fragment, FragmentKind::EnsureChunk);
            assert_eq!(placeholder, Placeholder::JsMatcher);
        },
        _ => panic!("expected the unresolved-placeholder error"),
    }
}

#[test]
fn filled_values_are_never_rescanned() {
    // a bound value that itself looks like a hole is spliced verbatim
    let t = Template {
        pieces: vec![
            Piece::Hole(Placeholder::JsMatcher),
            Piece::Lit("|".to_string()),
            Piece::Hole(Placeholder::JsMatcher),
        ],
    };
    let mut b = Bindings::empty();
    b.js_matcher = Some("$JS_MATCHER$".to_string());
    let s = fill("main", FragmentKind::EnsureChunk, &t, &b).unwrap();
    assert_eq!(s, "$JS_MATCHER$|$JS_MATCHER$");
}

#[test]
fn defined_globals_follow_the_selected_fragments() {
    let m = map_of(&[("A", true)]);
    let flags = RuntimeFlags { loading: true, hmr: true, ..no_flags() };
    let a = generate(
        "main",
        &flags,
        &default_config(),
        &m,
        &Vec::new(),
        &HookOutcome::NoHook,
        &HookOutcome::NoHook,
    )
    .unwrap();
    assert_eq!(
        defined_globals(&a),
        vec![
            "installedChunks".to_string(),
            "__webpack_require__.f.j".to_string(),
            "__webpack_require__.hmrI.jsonp".to_string(),
            "__webpack_require__.hmrC.jsonp".to_string(),
        ]
    );
}
