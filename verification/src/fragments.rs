use vstd::prelude::*;

use crate::json::{json_quote, json_string_of};
use crate::matcher::{render, spec_render, Matcher, MatcherModel};
use crate::template::{
    fill, filled, no_bindings, resolved, Bindings, BindingsModel, FragmentKind, Piece, PieceModel,
    Placeholder, Template,
};
use crate::text::{join_from, join_with};

verus! {

/// The `type` the emitted `script`/`link` elements should carry:
/// `module`, none at all, or a custom value.
#[derive(Debug)]
pub enum ScriptType {
    Module,
    Omitted,
    Other(String),
}

/// The mathematical shape of a script type.
pub enum ScriptTypeModel {
    Module,
    Omitted,
    Other(Seq<char>),
}

impl View for ScriptType {
    type V = ScriptTypeModel;

    open spec fn view(&self) -> ScriptTypeModel {
        match self {
            ScriptType::Module => ScriptTypeModel::Module,
            ScriptType::Omitted => ScriptTypeModel::Omitted,
            ScriptType::Other(s) => ScriptTypeModel::Other(s@),
        }
    }
}

/// The cross-origin policy for the elements the emitted code creates:
/// disabled, the dedicated credentials mode, or a custom attribute value
/// such as `anonymous`. A custom value must be non-empty; the dedicated
/// variant, not the custom one, selects the credentials behaviour.
#[derive(Debug)]
pub enum CrossOrigin {
    Disabled,
    UseCredentials,
    Custom(String),
}

/// The mathematical shape of a cross-origin policy.
pub enum CrossOriginModel {
    Disabled,
    UseCredentials,
    Custom(Seq<char>),
}

impl View for CrossOrigin {
    type V = CrossOriginModel;

    open spec fn view(&self) -> CrossOriginModel {
        match self {
            CrossOrigin::Disabled => CrossOriginModel::Disabled,
            CrossOrigin::UseCredentials => CrossOriginModel::UseCredentials,
            CrossOrigin::Custom(s) => CrossOriginModel::Custom(s@),
        }
    }
}

/// The output configuration the surrounding build hands in: the names of
/// the runtime globals, the policies for created elements, and the entry's
/// base URI if one is configured.
#[derive(Debug)]
pub struct OutputConfig {
    pub global_object: String,
    pub chunk_loading_global: String,
    pub hot_update_global: String,
    pub cross_origin: CrossOrigin,
    pub script_type: ScriptType,
    pub charset: bool,
    pub base_uri: Option<String>,
}

/// The mathematical shape of an output configuration.
pub struct ConfigModel {
    pub global_object: Seq<char>,
    pub chunk_loading_global: Seq<char>,
    pub hot_update_global: Seq<char>,
    pub cross_origin: CrossOriginModel,
    pub script_type: ScriptTypeModel,
    pub charset: bool,
    pub base_uri: Option<Seq<char>>,
}

impl View for OutputConfig {
    type V = ConfigModel;

    open spec fn view(&self) -> ConfigModel {
        ConfigModel {
            global_object: self.global_object@,
            chunk_loading_global: self.chunk_loading_global@,
            hot_update_global: self.hot_update_global@,
            cross_origin: self.cross_origin@,
            script_type: self.script_type@,
            charset: self.charset,
            base_uri: match &self.base_uri {
                Some(u) => Some(u@),
                None => None,
            },
        }
    }
}

/// A configuration the generator accepts: a custom cross-origin value
/// must be non-empty, else generation fails fast rather than emitting
/// an attribute with no value.
pub open spec fn config_valid(c: ConfigModel) -> bool {
    match c.cross_origin {
        CrossOriginModel::Custom(v) => v.len() > 0,
        _ => true,
    }
}

// --- base-URI assignment fragment ---

/// The expression assigned to the runtime's base-URI slot: the configured
/// entry base URI as a quoted literal, or the document's own location.
pub open spec fn spec_base_uri_value(base_uri: Option<Seq<char>>) -> Seq<char> {
    match base_uri {
        Some(u) => json_string_of(u),
        None => "document.baseURI || self.location.href"@,
    }
}

/// The base-URI fragment template.
pub open spec fn spec_base_uri_template() -> Seq<PieceModel> {
    seq![
        PieceModel::Lit("__webpack_require__.b = "@),
        PieceModel::Hole(Placeholder::BaseUriValue),
        PieceModel::Lit(";\n"@),
    ]
}

/// The base-URI fragment text.
pub open spec fn spec_base_uri_text(base_uri: Option<Seq<char>>) -> Seq<char> {
    filled(
        spec_base_uri_template(),
        BindingsModel { base_uri_value: Some(spec_base_uri_value(base_uri)), ..no_bindings() },
    )
}

fn base_uri_template() -> (t: Template)
    ensures
        t@ == spec_base_uri_template(),
{
    let mut pieces: Vec<Piece> = Vec::new();
    pieces.push(Piece::Lit(String::from_str("__webpack_require__.b = ")));
    pieces.push(Piece::Hole(Placeholder::BaseUriValue));
    pieces.push(Piece::Lit(String::from_str(";\n")));
    let t = Template { pieces };
    proof {
        assert(t@ =~= spec_base_uri_template());
    }
    t
}

/// Builds the base-URI assignment fragment.
pub fn build_base_uri(chunk: &str, config: &OutputConfig) -> (r: String)
    ensures
        r@ == spec_base_uri_text(config@.base_uri),
{
    let value = match &config.base_uri {
        Some(u) => json_quote(u.as_str()),
        None => String::from_str("document.baseURI || self.location.href"),
    };
    let t = base_uri_template();
    let b = Bindings { base_uri_value: Some(value), ..Bindings::empty() };
    proof {
        assert(resolved(t@, b@));
    }
    match fill(chunk, FragmentKind::BaseUri, &t, &b) {
        Ok(s) => s,
        Err(_) => {
            proof {
                assert(false);
            }
            String::new()
        },
    }
}

// --- state table fragment ---

/// The prefix that, under HMR, re-uses the surviving table of the
/// replaced runtime instead of a fresh one.
pub open spec fn spec_state_prefix(hmr: bool) -> Seq<char> {
    if hmr {
        "__webpack_require__.hmrS_jsonp = __webpack_require__.hmrS_jsonp || "@
    } else {
        ""@
    }
}

/// One seeded entry of the table literal: the quoted chunk id mapped to
/// the loaded marker.
pub open spec fn spec_chunk_entries(ids: Seq<Seq<char>>) -> Seq<Seq<char>> {
    Seq::new(ids.len(), |i: int| json_string_of(ids[i]) + ":0"@)
}

/// The table literal seeding the initially present chunks as loaded.
pub open spec fn spec_initial_chunks(ids: Seq<Seq<char>>) -> Seq<char> {
    "{"@ + join_from(spec_chunk_entries(ids), ","@) + "}"@
}

/// The state-table fragment template.
pub open spec fn spec_state_table_template() -> Seq<PieceModel> {
    seq![
        PieceModel::Lit(
            "// object to store loaded and loading chunks\n// undefined = chunk not loaded, null = chunk preloaded/prefetched\n// [resolve, reject, Promise] = chunk loading, 0 = chunk loaded\nvar installedChunks = "@,
        ),
        PieceModel::Hole(Placeholder::StatePrefix),
        PieceModel::Hole(Placeholder::InitialChunks),
        PieceModel::Lit(";\n"@),
    ]
}

/// The state-table fragment text.
pub open spec fn spec_state_table_text(hmr: bool, ids: Seq<Seq<char>>) -> Seq<char> {
    filled(
        spec_state_table_template(),
        BindingsModel {
            state_prefix: Some(spec_state_prefix(hmr)),
            initial_chunks: Some(spec_initial_chunks(ids)),
            ..no_bindings()
        },
    )
}

fn state_table_template() -> (t: Template)
    ensures
        t@ == spec_state_table_template(),
{
    let mut pieces: Vec<Piece> = Vec::new();
    pieces.push(
        Piece::Lit(
            String::from_str(
                "// object to store loaded and loading chunks\n// undefined = chunk not loaded, null = chunk preloaded/prefetched\n// [resolve, reject, Promise] = chunk loading, 0 = chunk loaded\nvar installedChunks = ",
            ),
        ),
    );
    pieces.push(Piece::Hole(Placeholder::StatePrefix));
    pieces.push(Piece::Hole(Placeholder::InitialChunks));
    pieces.push(Piece::Lit(String::from_str(";\n")));
    let t = Template { pieces };
    proof {
        assert(t@ =~= spec_state_table_template());
    }
    t
}

/// Builds the table literal seeding the initially present chunks.
fn initial_chunks_value(initial: &Vec<String>) -> (r: String)
    ensures
        r@ == spec_initial_chunks(initial.deep_view()),
{
    let ghost dv = initial.deep_view();
    let mut parts: Vec<String> = Vec::new();
    let mut i: usize = 0;
    while i < initial.len()
        invariant
            i <= initial.len(),
            dv == initial.deep_view(),
            dv.len() == initial@.len(),
            parts.deep_view() == spec_chunk_entries(dv.take(i as int)),
        decreases initial.len() - i,
    {
        let ghost old_parts = parts.deep_view();
        let mut entry = json_quote(initial[i].as_str());
        entry.append(":0");
        parts.push(entry);
        proof {
            assert(parts.deep_view() =~= old_parts.push(json_string_of(dv[i as int]) + ":0"@));
            assert(spec_chunk_entries(dv.take(i + 1)) =~= spec_chunk_entries(
                dv.take(i as int),
            ).push(json_string_of(dv[i as int]) + ":0"@));
        }
        i += 1;
    }
    proof {
        assert(dv.take(dv.len() as int) =~= dv);
    }
    let mut r = String::from_str("{");
    let joined = join_with(&parts, ",");
    r.append(joined.as_str());
    r.append("}");
    r
}

/// Builds the state-table declaration fragment, seeding the chunks
/// already present as loaded.
pub fn build_state_table(chunk: &str, hmr: bool, initial: &Vec<String>) -> (r: String)
    ensures
        r@ == spec_state_table_text(hmr, initial.deep_view()),
{
    let prefix = if hmr {
        String::from_str("__webpack_require__.hmrS_jsonp = __webpack_require__.hmrS_jsonp || ")
    } else {
        String::from_str("")
    };
    let chunks = initial_chunks_value(initial);
    let t = state_table_template();
    let b = Bindings {
        state_prefix: Some(prefix),
        initial_chunks: Some(chunks),
        ..Bindings::empty()
    };
    proof {
        assert(resolved(t@, b@));
    }
    match fill(chunk, FragmentKind::StateTable, &t, &b) {
        Ok(s) => s,
        Err(_) => {
            proof {
                assert(false);
            }
            String::new()
        },
    }
}


// --- ensure-chunk handler fragment ---

/// The extra parameter threaded through when fetch-priority support is
/// required.
pub open spec fn spec_fetch_priority(with_fetch_priority: bool) -> Seq<char> {
    if with_fetch_priority {
        ", fetchPriority"@
    } else {
        ""@
    }
}

/// The branch marking a chunk with no script as immediately loaded;
/// omitted when the matcher is constant-true, where it would be
/// unreachable.
pub open spec fn spec_match_fallback(m: MatcherModel) -> Seq<char> {
    if m is AlwaysTrue {
        ""@
    } else {
        "else installedChunks[chunkId] = 0;\n"@
    }
}

/// The template of the fetching body of the ensure-chunk handler.
pub open spec fn spec_ensure_body_template() -> Seq<PieceModel> {
    seq![
        PieceModel::Lit(
            "var installedChunkData = __webpack_require__.o(installedChunks, chunkId) ? installedChunks[chunkId] : undefined;\nif (installedChunkData !== 0) {\n// 0 means \"already installed\".\n// a Promise means \"currently loading\".\nif (installedChunkData) {\npromises.push(installedChunkData[2]);\n} else {\nif ("@,
        ),
        PieceModel::Hole(Placeholder::JsMatcher),
        PieceModel::Lit(
            ") {\n// setup Promise in chunk cache\nvar promise = new Promise(function (resolve, reject) { installedChunkData = installedChunks[chunkId] = [resolve, reject]; });\npromises.push(installedChunkData[2] = promise);\n// start chunk loading\nvar url = __webpack_require__.p + __webpack_require__.u(chunkId);\n// create error before stack unwound to get useful stacktrace later\nvar error = new Error();\nvar loadingEnded = function (event) {\nif (__webpack_require__.o(installedChunks, chunkId)) {\ninstalledChunkData = installedChunks[chunkId];\nif (installedChunkData !== 0) installedChunks[chunkId] = undefined;\nif (installedChunkData) {\nvar errorType = event && (event.type === 'load' ? 'missing' : event.type);\nvar realSrc = event && event.target && event.target.src;\nerror.message = 'Loading chunk ' + chunkId + ' failed.\\n(' + errorType + ': ' + realSrc + ')';\nerror.name = 'ChunkLoadError';\nerror.type = errorType;\nerror.request = realSrc;\ninstalledChunkData[1](error);\n}\n}\n};\n__webpack_require__.l(url, loadingEnded, \"chunk-\" + chunkId, chunkId"@,
        ),
        PieceModel::Hole(Placeholder::FetchPriority),
        PieceModel::Lit(");\n} "@),
        PieceModel::Hole(Placeholder::MatchFallback),
        PieceModel::Lit("\n}\n}\n"@),
    ]
}

/// The body of the ensure-chunk handler: the constant already-loaded
/// write when the matcher is constant-false (no chunk ever has script to
/// fetch), else the fetching body parametrized by the matcher.
pub open spec fn spec_ensure_body(m: MatcherModel, with_fetch_priority: bool) -> Seq<char> {
    if m is AlwaysFalse {
        "installedChunks[chunkId] = 0;\n"@
    } else {
        filled(
            spec_ensure_body_template(),
            BindingsModel {
                js_matcher: Some(spec_render(m, "chunkId"@)),
                fetch_priority: Some(spec_fetch_priority(with_fetch_priority)),
                match_fallback: Some(spec_match_fallback(m)),
                ..no_bindings()
            },
        )
    }
}

/// The ensure-chunk fragment template.
pub open spec fn spec_ensure_chunk_template() -> Seq<PieceModel> {
    seq![
        PieceModel::Lit("__webpack_require__.f.j = function (chunkId, promises"@),
        PieceModel::Hole(Placeholder::FetchPriority),
        PieceModel::Lit(") {\n"@),
        PieceModel::Hole(Placeholder::EnsureBody),
        PieceModel::Lit("};\n"@),
    ]
}

/// The ensure-chunk fragment text.
pub open spec fn spec_ensure_chunk_text(m: MatcherModel, with_fetch_priority: bool) -> Seq<char> {
    filled(
        spec_ensure_chunk_template(),
        BindingsModel {
            fetch_priority: Some(spec_fetch_priority(with_fetch_priority)),
            ensure_body: Some(spec_ensure_body(m, with_fetch_priority)),
            ..no_bindings()
        },
    )
}

fn ensure_body_template() -> (t: Template)
    ensures
        t@ == spec_ensure_body_template(),
{
    let mut pieces: Vec<Piece> = Vec::new();
    pieces.push(
        Piece::Lit(
            String::from_str(
                "var installedChunkData = __webpack_require__.o(installedChunks, chunkId) ? installedChunks[chunkId] : undefined;\nif (installedChunkData !== 0) {\n// 0 means \"already installed\".\n// a Promise means \"currently loading\".\nif (installedChunkData) {\npromises.push(installedChunkData[2]);\n} else {\nif (",
            ),
        ),
    );
    pieces.push(Piece::Hole(Placeholder::JsMatcher));
    pieces.push(
        Piece::Lit(
            String::from_str(
                ") {\n// setup Promise in chunk cache\nvar promise = new Promise(function (resolve, reject) { installedChunkData = installedChunks[chunkId] = [resolve, reject]; });\npromises.push(installedChunkData[2] = promise);\n// start chunk loading\nvar url = __webpack_require__.p + __webpack_require__.u(chunkId);\n// create error before stack unwound to get useful stacktrace later\nvar error = new Error();\nvar loadingEnded = function (event) {\nif (__webpack_require__.o(installedChunks, chunkId)) {\ninstalledChunkData = installedChunks[chunkId];\nif (installedChunkData !== 0) installedChunks[chunkId] = undefined;\nif (installedChunkData) {\nvar errorType = event && (event.type === 'load' ? 'missing' : event.type);\nvar realSrc = event && event.target && event.target.src;\nerror.message = 'Loading chunk ' + chunkId + ' failed.\\n(' + errorType + ': ' + realSrc + ')';\nerror.name = 'ChunkLoadError';\nerror.type = errorType;\nerror.request = realSrc;\ninstalledChunkData[1](error);\n}\n}\n};\n__webpack_require__.l(url, loadingEnded, \"chunk-\" + chunkId, chunkId",
            ),
        ),
    );
    pieces.push(Piece::Hole(Placeholder::FetchPriority));
    pieces.push(Piece::Lit(String::from_str(");\n} ")));
    pieces.push(Piece::Hole(Placeholder::MatchFallback));
    pieces.push(Piece::Lit(String::from_str("\n}\n}\n")));
    let t = Template { pieces };
    proof {
        assert(t@ =~= spec_ensure_body_template());
    }
    t
}

fn ensure_chunk_template() -> (t: Template)
    ensures
        t@ == spec_ensure_chunk_template(),
{
    let mut pieces: Vec<Piece> = Vec::new();
    pieces.push(Piece::Lit(String::from_str("__webpack_require__.f.j = function (chunkId, promises")));
    pieces.push(Piece::Hole(Placeholder::FetchPriority));
    pieces.push(Piece::Lit(String::from_str(") {\n")));
    pieces.push(Piece::Hole(Placeholder::EnsureBody));
    pieces.push(Piece::Lit(String::from_str("};\n")));
    let t = Template { pieces };
    proof {
        assert(t@ =~= spec_ensure_chunk_template());
    }
    t
}

/// The fetch-priority parameter value.
fn fetch_priority_value(with_fetch_priority: bool) -> (r: String)
    ensures
        r@ == spec_fetch_priority(with_fetch_priority),
{
    if with_fetch_priority {
        String::from_str(", fetchPriority")
    } else {
        String::from_str("")
    }
}

/// Builds the ensure-chunk handler fragment: the registered handler with
/// either the degenerate already-loaded body or the fetching body driven
/// by the matcher.
pub fn build_ensure_chunk(chunk: &str, m: &Matcher, with_fetch_priority: bool) -> (r: String)
    ensures
        r@ == spec_ensure_chunk_text(m@, with_fetch_priority),
{
    let body: String = match m {
        Matcher::AlwaysFalse => String::from_str("installedChunks[chunkId] = 0;\n"),
        _ => {
            let js_matcher = render(m, "chunkId");
            let fallback = match m {
                Matcher::AlwaysTrue => String::from_str(""),
                _ => String::from_str("else installedChunks[chunkId] = 0;\n"),
            };
            let t = ensure_body_template();
            let b = Bindings {
                js_matcher: Some(js_matcher),
                fetch_priority: Some(fetch_priority_value(with_fetch_priority)),
                match_fallback: Some(fallback),
                ..Bindings::empty()
            };
            proof {
                assert(resolved(t@, b@));
            }
            match fill(chunk, FragmentKind::EnsureChunk, &t, &b) {
                Ok(s) => s,
                Err(_) => {
                    proof {
                        assert(false);
                    }
                    String::from_str("")
                },
            }
        },
    };
    let t = ensure_chunk_template();
    let b = Bindings {
        fetch_priority: Some(fetch_priority_value(with_fetch_priority)),
        ensure_body: Some(body),
        ..Bindings::empty()
    };
    proof {
        assert(resolved(t@, b@));
    }
    match fill(chunk, FragmentKind::EnsureChunk, &t, &b) {
        Ok(s) => s,
        Err(_) => {
            proof {
                assert(false);
            }
            String::from_str("")
        },
    }
}

// --- prefetch and preload link snippets (the hook-decorated drafts) ---

/// The charset assignment of a created link element.
pub open spec fn spec_link_charset(charset: bool) -> Seq<char> {
    if charset {
        "link.charset = 'utf-8';\n"@
    } else {
        ""@
    }
}

/// The cross-origin assignment of a prefetch link element.
pub open spec fn spec_cross_origin_prefetch(co: CrossOriginModel) -> Seq<char> {
    match co {
        CrossOriginModel::Disabled => ""@,
        CrossOriginModel::UseCredentials => "link.crossOrigin = \"use-credentials\";\n"@,
        CrossOriginModel::Custom(v) => "link.crossOrigin = "@ + json_string_of(v) + ";\n"@,
    }
}

/// The cross-origin assignment of a preload link element: a custom value
/// applies to cross-origin targets only, while the credentials mode
/// applies unconditionally.
pub open spec fn spec_cross_origin_preload(co: CrossOriginModel) -> Seq<char> {
    match co {
        CrossOriginModel::Disabled => ""@,
        CrossOriginModel::UseCredentials => "link.crossOrigin = \"use-credentials\";\n"@,
        CrossOriginModel::Custom(v) =>
            "if (link.href.indexOf(window.location.origin + '/') !== 0) {\nlink.crossOrigin = "@
            + json_string_of(v) + ";\n}\n"@,
    }
}

/// The type assignment of a preload link element; omitted for module
/// scripts and for an omitted script type.
pub open spec fn spec_script_type_pre(st: ScriptTypeModel) -> Seq<char> {
    match st {
        ScriptTypeModel::Module => ""@,
        ScriptTypeModel::Omitted => ""@,
        ScriptTypeModel::Other(v) => "link.type = "@ + json_string_of(v) + ";\n"@,
    }
}

/// The rel/as assignments of a preload link element.
pub open spec fn spec_script_type_post(st: ScriptTypeModel) -> Seq<char> {
    match st {
        ScriptTypeModel::Module => "link.rel = \"modulepreload\";\n"@,
        _ => "link.rel = \"preload\";\nlink.as = \"script\";\n"@,
    }
}

/// The prefetch link snippet template.
pub open spec fn spec_prefetch_link_template() -> Seq<PieceModel> {
    seq![
        PieceModel::Lit("var link = document.createElement('link');\n"@),
        PieceModel::Hole(Placeholder::LinkCharset),
        PieceModel::Hole(Placeholder::CrossOriginAttr),
        PieceModel::Lit(
            "if (__webpack_require__.nc) {\nlink.setAttribute(\"nonce\", __webpack_require__.nc);\n}\nlink.rel = \"prefetch\";\nlink.as = \"script\";\nlink.href = __webpack_require__.p + __webpack_require__.u(chunkId);"@,
        ),
    ]
}

/// The prefetch link snippet offered to the decorate-prefetch extension.
pub open spec fn spec_prefetch_draft(charset: bool, co: CrossOriginModel) -> Seq<char> {
    filled(
        spec_prefetch_link_template(),
        BindingsModel {
            link_charset: Some(spec_link_charset(charset)),
            cross_origin_attr: Some(spec_cross_origin_prefetch(co)),
            ..no_bindings()
        },
    )
}

/// The preload link snippet template.
pub open spec fn spec_preload_link_template() -> Seq<PieceModel> {
    seq![
        PieceModel::Lit("var link = document.createElement('link');\n"@),
        PieceModel::Hole(Placeholder::LinkCharset),
        PieceModel::Hole(Placeholder::ScriptTypePre),
        PieceModel::Lit(
            "if (__webpack_require__.nc) {\nlink.setAttribute(\"nonce\", __webpack_require__.nc);\n}\n"@,
        ),
        PieceModel::Hole(Placeholder::ScriptTypePost),
        PieceModel::Lit("link.href = __webpack_require__.p + __webpack_require__.u(chunkId);\n"@),
        PieceModel::Hole(Placeholder::CrossOriginAttr),
    ]
}

/// The preload link snippet offered to the decorate-preload extension.
pub open spec fn spec_preload_draft(charset: bool, st: ScriptTypeModel, co: CrossOriginModel) -> Seq<
    char,
> {
    filled(
        spec_preload_link_template(),
        BindingsModel {
            link_charset: Some(spec_link_charset(charset)),
            script_type_pre: Some(spec_script_type_pre(st)),
            script_type_post: Some(spec_script_type_post(st)),
            cross_origin_attr: Some(spec_cross_origin_preload(co)),
            ..no_bindings()
        },
    )
}

fn link_charset_value(charset: bool) -> (r: String)
    ensures
        r@ == spec_link_charset(charset),
{
    if charset {
        String::from_str("link.charset = 'utf-8';\n")
    } else {
        String::from_str("")
    }
}

fn prefetch_link_template() -> (t: Template)
    ensures
        t@ == spec_prefetch_link_template(),
{
    let mut pieces: Vec<Piece> = Vec::new();
    pieces.push(Piece::Lit(String::from_str("var link = document.createElement('link');\n")));
    pieces.push(Piece::Hole(Placeholder::LinkCharset));
    pieces.push(Piece::Hole(Placeholder::CrossOriginAttr));
    pieces.push(
        Piece::Lit(
            String::from_str(
                "if (__webpack_require__.nc) {\nlink.setAttribute(\"nonce\", __webpack_require__.nc);\n}\nlink.rel = \"prefetch\";\nlink.as = \"script\";\nlink.href = __webpack_require__.p + __webpack_require__.u(chunkId);",
            ),
        ),
    );
    let t = Template { pieces };
    proof {
        assert(t@ =~= spec_prefetch_link_template());
    }
    t
}

fn preload_link_template() -> (t: Template)
    ensures
        t@ == spec_preload_link_template(),
{
    let mut pieces: Vec<Piece> = Vec::new();
    pieces.push(Piece::Lit(String::from_str("var link = document.createElement('link');\n")));
    pieces.push(Piece::Hole(Placeholder::LinkCharset));
    pieces.push(Piece::Hole(Placeholder::ScriptTypePre));
    pieces.push(
        Piece::Lit(
            String::from_str(
                "if (__webpack_require__.nc) {\nlink.setAttribute(\"nonce\", __webpack_require__.nc);\n}\n",
            ),
        ),
    );
    pieces.push(Piece::Hole(Placeholder::ScriptTypePost));
    pieces.push(
        Piece::Lit(
            String::from_str("link.href = __webpack_require__.p + __webpack_require__.u(chunkId);\n"),
        ),
    );
    pieces.push(Piece::Hole(Placeholder::CrossOriginAttr));
    let t = Template { pieces };
    proof {
        assert(t@ =~= spec_preload_link_template());
    }
    t
}

/// Builds the locally assembled prefetch link snippet, the text later
/// offered to the decorate-prefetch extension.
pub fn prefetch_link_draft(chunk: &str, config: &OutputConfig) -> (r: String)
    ensures
        r@ == spec_prefetch_draft(config@.charset, config@.cross_origin),
{
    let cross_origin = match &config.cross_origin {
        CrossOrigin::Disabled => String::from_str(""),
        CrossOrigin::UseCredentials => String::from_str("link.crossOrigin = \"use-credentials\";\n"),
        CrossOrigin::Custom(v) => {
            let mut s = String::from_str("link.crossOrigin = ");
            let q = json_quote(v.as_str());
            s.append(q.as_str());
            s.append(";\n");
            s
        },
    };
    let t = prefetch_link_template();
    let b = Bindings {
        link_charset: Some(link_charset_value(config.charset)),
        cross_origin_attr: Some(cross_origin),
        ..Bindings::empty()
    };
    proof {
        assert(resolved(t@, b@));
    }
    match fill(chunk, FragmentKind::Prefetch, &t, &b) {
        Ok(s) => s,
        Err(_) => {
            proof {
                assert(false);
            }
            String::from_str("")
        },
    }
}

/// Builds the locally assembled preload link snippet, the text later
/// offered to the decorate-preload extension.
pub fn preload_link_draft(chunk: &str, config: &OutputConfig) -> (r: String)
    ensures
        r@ == spec_preload_draft(config@.charset, config@.script_type, config@.cross_origin),
{
    let cross_origin = match &config.cross_origin {
        CrossOrigin::Disabled => String::from_str(""),
        CrossOrigin::UseCredentials => String::from_str("link.crossOrigin = \"use-credentials\";\n"),
        CrossOrigin::Custom(v) => {
            let mut s = String::from_str(
                "if (link.href.indexOf(window.location.origin + '/') !== 0) {\nlink.crossOrigin = ",
            );
            let q = json_quote(v.as_str());
            s.append(q.as_str());
            s.append(";\n}\n");
            s
        },
    };
    let script_type_pre = match &config.script_type {
        ScriptType::Other(v) => {
            let mut s = String::from_str("link.type = ");
            let q = json_quote(v.as_str());
            s.append(q.as_str());
            s.append(";\n");
            s
        },
        _ => String::from_str(""),
    };
    let script_type_post = match &config.script_type {
        ScriptType::Module => String::from_str("link.rel = \"modulepreload\";\n"),
        _ => String::from_str("link.rel = \"preload\";\nlink.as = \"script\";\n"),
    };
    let t = preload_link_template();
    let b = Bindings {
        link_charset: Some(link_charset_value(config.charset)),
        script_type_pre: Some(script_type_pre),
        script_type_post: Some(script_type_post),
        cross_origin_attr: Some(cross_origin),
        ..Bindings::empty()
    };
    proof {
        assert(resolved(t@, b@));
    }
    match fill(chunk, FragmentKind::Preload, &t, &b) {
        Ok(s) => s,
        Err(_) => {
            proof {
                assert(false);
            }
            String::from_str("")
        },
    }
}

// --- prefetch and preload handler fragments ---

/// The prefetch handler fragment template.
pub open spec fn spec_prefetch_template() -> Seq<PieceModel> {
    seq![
        PieceModel::Lit(
            "__webpack_require__.F.j = function (chunkId) {\nif ((!__webpack_require__.o(installedChunks, chunkId) || installedChunks[chunkId] === undefined) && ("@,
        ),
        PieceModel::Hole(Placeholder::JsMatcher),
        PieceModel::Lit(")) {\ninstalledChunks[chunkId] = null;\n"@),
        PieceModel::Hole(Placeholder::LinkPrefetch),
        PieceModel::Lit("\ndocument.head.appendChild(link);\n}\n};\n"@),
    ]
}

/// The prefetch handler fragment text, parametrized by the (possibly
/// decorated) link snippet.
pub open spec fn spec_prefetch_text(m: MatcherModel, link_code: Seq<char>) -> Seq<char> {
    filled(
        spec_prefetch_template(),
        BindingsModel {
            js_matcher: Some(spec_render(m, "chunkId"@)),
            link_prefetch: Some(link_code),
            ..no_bindings()
        },
    )
}

/// The preload handler fragment template.
pub open spec fn spec_preload_template() -> Seq<PieceModel> {
    seq![
        PieceModel::Lit(
            "__webpack_require__.H.j = function (chunkId) {\nif ((!__webpack_require__.o(installedChunks, chunkId) || installedChunks[chunkId] === undefined) && ("@,
        ),
        PieceModel::Hole(Placeholder::JsMatcher),
        PieceModel::Lit(")) {\ninstalledChunks[chunkId] = null;\n"@),
        PieceModel::Hole(Placeholder::LinkPreload),
        PieceModel::Lit("\ndocument.head.appendChild(link);\n}\n};\n"@),
    ]
}

/// The preload handler fragment text, parametrized by the (possibly
/// decorated) link snippet.
pub open spec fn spec_preload_text(m: MatcherModel, link_code: Seq<char>) -> Seq<char> {
    filled(
        spec_preload_template(),
        BindingsModel {
            js_matcher: Some(spec_render(m, "chunkId"@)),
            link_preload: Some(link_code),
            ..no_bindings()
        },
    )
}

fn prefetch_template() -> (t: Template)
    ensures
        t@ == spec_prefetch_template(),
{
    let mut pieces: Vec<Piece> = Vec::new();
    pieces.push(
        Piece::Lit(
            String::from_str(
                "__webpack_require__.F.j = function (chunkId) {\nif ((!__webpack_require__.o(installedChunks, chunkId) || installedChunks[chunkId] === undefined) && (",
            ),
        ),
    );
    pieces.push(Piece::Hole(Placeholder::JsMatcher));
    pieces.push(Piece::Lit(String::from_str(")) {\ninstalledChunks[chunkId] = null;\n")));
    pieces.push(Piece::Hole(Placeholder::LinkPrefetch));
    pieces.push(Piece::Lit(String::from_str("\ndocument.head.appendChild(link);\n}\n};\n")));
    let t = Template { pieces };
    proof {
        assert(t@ =~= spec_prefetch_template());
    }
    t
}

fn preload_template() -> (t: Template)
    ensures
        t@ == spec_preload_template(),
{
    let mut pieces: Vec<Piece> = Vec::new();
    pieces.push(
        Piece::Lit(
            String::from_str(
                "__webpack_require__.H.j = function (chunkId) {\nif ((!__webpack_require__.o(installedChunks, chunkId) || installedChunks[chunkId] === undefined) && (",
            ),
        ),
    );
    pieces.push(Piece::Hole(Placeholder::JsMatcher));
    pieces.push(Piece::Lit(String::from_str(")) {\ninstalledChunks[chunkId] = null;\n")));
    pieces.push(Piece::Hole(Placeholder::LinkPreload));
    pieces.push(Piece::Lit(String::from_str("\ndocument.head.appendChild(link);\n}\n};\n")));
    let t = Template { pieces };
    proof {
        assert(t@ =~= spec_preload_template());
    }
    t
}

/// Builds the prefetch handler fragment around the given link snippet.
pub fn build_prefetch(chunk: &str, m: &Matcher, link_code: String) -> (r: String)
    ensures
        r@ == spec_prefetch_text(m@, link_code@),
{
    let js_matcher = render(m, "chunkId");
    let t = prefetch_template();
    let b = Bindings {
        js_matcher: Some(js_matcher),
        link_prefetch: Some(link_code),
        ..Bindings::empty()
    };
    proof {
        assert(resolved(t@, b@));
    }
    match fill(chunk, FragmentKind::Prefetch, &t, &b) {
        Ok(s) => s,
        Err(_) => {
            proof {
                assert(false);
            }
            String::from_str("")
        },
    }
}

/// Builds the preload handler fragment around the given link snippet.
pub fn build_preload(chunk: &str, m: &Matcher, link_code: String) -> (r: String)
    ensures
        r@ == spec_preload_text(m@, link_code@),
{
    let js_matcher = render(m, "chunkId");
    let t = preload_template();
    let b = Bindings {
        js_matcher: Some(js_matcher),
        link_preload: Some(link_code),
        ..Bindings::empty()
    };
    proof {
        assert(resolved(t@, b@));
    }
    match fill(chunk, FragmentKind::Preload, &t, &b) {
        Ok(s) => s,
        Err(_) => {
            proof {
                assert(false);
            }
            String::from_str("")
        },
    }
}

// --- HMR update handler fragment ---

/// The HMR update fragment template: the update-chunk loader, the global
/// download handler installed on the configured global object under the
/// quoted hot-update global name, and the jsonp flavour of the HMR apply
/// protocol.
pub open spec fn spec_hmr_update_template() -> Seq<PieceModel> {
    seq![
        PieceModel::Lit(
            "var currentUpdatedModulesList;\nvar waitingUpdateResolves = {};\nfunction loadUpdateChunk(chunkId, updatedModulesList) {\ncurrentUpdatedModulesList = updatedModulesList;\nreturn new Promise(function (resolve, reject) {\nwaitingUpdateResolves[chunkId] = resolve;\n// start update chunk loading\nvar url = __webpack_require__.p + __webpack_require__.hu(chunkId);\n// create error before stack unwound to get useful stacktrace later\nvar error = new Error();\nvar loadingEnded = function (event) {\nif (waitingUpdateResolves[chunkId]) {\nwaitingUpdateResolves[chunkId] = undefined;\nvar errorType = event && (event.type === 'load' ? 'missing' : event.type);\nvar realSrc = event && event.target && event.target.src;\nerror.message = 'Loading hot update chunk ' + chunkId + ' failed.\\n(' + errorType + ': ' + realSrc + ')';\nerror.name = 'ChunkLoadError';\nerror.type = errorType;\nerror.request = realSrc;\nreject(error);\n}\n};\n__webpack_require__.l(url, loadingEnded);\n});\n}\n\n"@,
        ),
        PieceModel::Hole(Placeholder::GlobalObject),
        PieceModel::Lit("["@),
        PieceModel::Hole(Placeholder::HotUpdateGlobal),
        PieceModel::Lit(
            "] = function (chunkId, moreModules, runtime) {\nfor (var moduleId in moreModules) {\nif (__webpack_require__.o(moreModules, moduleId)) {\ncurrentUpdate[moduleId] = moreModules[moduleId];\nif (currentUpdatedModulesList) currentUpdatedModulesList.push(moduleId);\n}\n}\nif (runtime) currentUpdateRuntime.push(runtime);\nif (waitingUpdateResolves[chunkId]) {\nwaitingUpdateResolves[chunkId]();\nwaitingUpdateResolves[chunkId] = undefined;\n}\n};\n\nvar currentUpdateChunks;\nvar currentUpdate;\nvar currentUpdateRemovedChunks;\nvar currentUpdateRuntime;\nfunction applyHandler(options) {\nif (__webpack_require__.f) delete __webpack_require__.f.jsonpHmr;\ncurrentUpdateChunks = undefined;\nreturn {\ndispose: function () {},\napply: function (reportError) {\n// insert new code\nfor (var moduleId in currentUpdate) {\nif (__webpack_require__.o(currentUpdate, moduleId)) {\n__webpack_require__.m[moduleId] = currentUpdate[moduleId];\n}\n}\n// run new runtime modules\nfor (var i = 0; i < currentUpdateRuntime.length; i++) {\ncurrentUpdateRuntime[i](__webpack_require__);\n}\nreturn [];\n}\n};\n}\n__webpack_require__.hmrI.jsonp = function (moduleId, applyHandlers) {\nif (!currentUpdate) {\ncurrentUpdate = {};\ncurrentUpdateRuntime = [];\ncurrentUpdateRemovedChunks = [];\napplyHandlers.push(applyHandler);\n}\nif (!__webpack_require__.o(currentUpdate, moduleId)) {\ncurrentUpdate[moduleId] = __webpack_require__.m[moduleId];\n}\n};\n__webpack_require__.hmrC.jsonp = function (chunkIds, removedChunks, removedModules, promises, applyHandlers, updatedModulesList) {\napplyHandlers.push(applyHandler);\ncurrentUpdateChunks = {};\ncurrentUpdateRemovedChunks = removedChunks;\ncurrentUpdate = removedModules.reduce(function (obj, key) {\nobj[key] = false;\nreturn obj;\n}, {});\ncurrentUpdateRuntime = [];\nchunkIds.forEach(function (chunkId) {\nif (__webpack_require__.o(installedChunks, chunkId) && installedChunks[chunkId] !== undefined) {\npromises.push(loadUpdateChunk(chunkId, updatedModulesList));\ncurrentUpdateChunks[chunkId] = true;\n} else {\ncurrentUpdateChunks[chunkId] = false;\n}\n});\n};\n"@,
        ),
    ]
}

/// The HMR update fragment text.
pub open spec fn spec_hmr_update_text(global_object: Seq<char>, hot_update_global: Seq<char>) -> Seq<
    char,
> {
    filled(
        spec_hmr_update_template(),
        BindingsModel {
            global_object: Some(global_object),
            hot_update_global: Some(json_string_of(hot_update_global)),
            ..no_bindings()
        },
    )
}

fn hmr_update_template() -> (t: Template)
    ensures
        t@ == spec_hmr_update_template(),
{
    let mut pieces: Vec<Piece> = Vec::new();
    pieces.push(
        Piece::Lit(
            String::from_str(
                "var currentUpdatedModulesList;\nvar waitingUpdateResolves = {};\nfunction loadUpdateChunk(chunkId, updatedModulesList) {\ncurrentUpdatedModulesList = updatedModulesList;\nreturn new Promise(function (resolve, reject) {\nwaitingUpdateResolves[chunkId] = resolve;\n// start update chunk loading\nvar url = __webpack_require__.p + __webpack_require__.hu(chunkId);\n// create error before stack unwound to get useful stacktrace later\nvar error = new Error();\nvar loadingEnded = function (event) {\nif (waitingUpdateResolves[chunkId]) {\nwaitingUpdateResolves[chunkId] = undefined;\nvar errorType = event && (event.type === 'load' ? 'missing' : event.type);\nvar realSrc = event && event.target && event.target.src;\nerror.message = 'Loading hot update chunk ' + chunkId + ' failed.\\n(' + errorType + ': ' + realSrc + ')';\nerror.name = 'ChunkLoadError';\nerror.type = errorType;\nerror.request = realSrc;\nreject(error);\n}\n};\n__webpack_require__.l(url, loadingEnded);\n});\n}\n\n",
            ),
        ),
    );
    pieces.push(Piece::Hole(Placeholder::GlobalObject));
    pieces.push(Piece::Lit(String::from_str("[")));
    pieces.push(Piece::Hole(Placeholder::HotUpdateGlobal));
    pieces.push(
        Piece::Lit(
            String::from_str(
                "] = function (chunkId, moreModules, runtime) {\nfor (var moduleId in moreModules) {\nif (__webpack_require__.o(moreModules, moduleId)) {\ncurrentUpdate[moduleId] = moreModules[moduleId];\nif (currentUpdatedModulesList) currentUpdatedModulesList.push(moduleId);\n}\n}\nif (runtime) currentUpdateRuntime.push(runtime);\nif (waitingUpdateResolves[chunkId]) {\nwaitingUpdateResolves[chunkId]();\nwaitingUpdateResolves[chunkId] = undefined;\n}\n};\n\nvar currentUpdateChunks;\nvar currentUpdate;\nvar currentUpdateRemovedChunks;\nvar currentUpdateRuntime;\nfunction applyHandler(options) {\nif (__webpack_require__.f) delete __webpack_require__.f.jsonpHmr;\ncurrentUpdateChunks = undefined;\nreturn {\ndispose: function () {},\napply: function (reportError) {\n// insert new code\nfor (var moduleId in currentUpdate) {\nif (__webpack_require__.o(currentUpdate, moduleId)) {\n__webpack_require__.m[moduleId] = currentUpdate[moduleId];\n}\n}\n// run new runtime modules\nfor (var i = 0; i < currentUpdateRuntime.length; i++) {\ncurrentUpdateRuntime[i](__webpack_require__);\n}\nreturn [];\n}\n};\n}\n__webpack_require__.hmrI.jsonp = function (moduleId, applyHandlers) {\nif (!currentUpdate) {\ncurrentUpdate = {};\ncurrentUpdateRuntime = [];\ncurrentUpdateRemovedChunks = [];\napplyHandlers.push(applyHandler);\n}\nif (!__webpack_require__.o(currentUpdate, moduleId)) {\ncurrentUpdate[moduleId] = __webpack_require__.m[moduleId];\n}\n};\n__webpack_require__.hmrC.jsonp = function (chunkIds, removedChunks, removedModules, promises, applyHandlers, updatedModulesList) {\napplyHandlers.push(applyHandler);\ncurrentUpdateChunks = {};\ncurrentUpdateRemovedChunks = removedChunks;\ncurrentUpdate = removedModules.reduce(function (obj, key) {\nobj[key] = false;\nreturn obj;\n}, {});\ncurrentUpdateRuntime = [];\nchunkIds.forEach(function (chunkId) {\nif (__webpack_require__.o(installedChunks, chunkId) && installedChunks[chunkId] !== undefined) {\npromises.push(loadUpdateChunk(chunkId, updatedModulesList));\ncurrentUpdateChunks[chunkId] = true;\n} else {\ncurrentUpdateChunks[chunkId] = false;\n}\n});\n};\n",
            ),
        ),
    );
    let t = Template { pieces };
    proof {
        assert(t@ =~= spec_hmr_update_template());
    }
    t
}

/// Builds the HMR update handler fragment.
pub fn build_hmr_update(chunk: &str, config: &OutputConfig) -> (r: String)
    ensures
        r@ == spec_hmr_update_text(config@.global_object, config@.hot_update_global),
{
    let t = hmr_update_template();
    let b = Bindings {
        global_object: Some(config.global_object.clone()),
        hot_update_global: Some(json_quote(config.hot_update_global.as_str())),
        ..Bindings::empty()
    };
    proof {
        assert(resolved(t@, b@));
    }
    match fill(chunk, FragmentKind::HmrUpdate, &t, &b) {
        Ok(s) => s,
        Err(_) => {
            proof {
                assert(false);
            }
            String::from_str("")
        },
    }
}

// --- HMR manifest fragment ---

/// The HMR manifest fragment text: the manifest fetcher; it has no holes.
pub open spec fn spec_hmr_manifest_text() -> Seq<char> {
    "__webpack_require__.hmrM = function () {\nif (typeof fetch === \"undefined\") throw new Error(\"No browser support: need fetch API\");\nreturn fetch(__webpack_require__.p + __webpack_require__.hmrF()).then(function (response) {\nif (response.status === 404) return;  // no update available\nif (!response.ok) throw new Error(\"Failed to fetch update manifest \" + response.statusText);\nreturn response.json();\n});\n};\n"@
}

/// Builds the HMR manifest fetcher fragment.
pub fn build_hmr_manifest() -> (r: String)
    ensures
        r@ == spec_hmr_manifest_text(),
{
    String::from_str(
        "__webpack_require__.hmrM = function () {\nif (typeof fetch === \"undefined\") throw new Error(\"No browser support: need fetch API\");\nreturn fetch(__webpack_require__.p + __webpack_require__.hmrF()).then(function (response) {\nif (response.status === 404) return;  // no update available\nif (!response.ok) throw new Error(\"Failed to fetch update manifest \" + response.statusText);\nreturn response.json();\n});\n};\n",
    )
}

// --- on-chunk-loaded fragment ---

/// The on-chunk-loaded fragment text: the deferred-module scheduler; it
/// has no holes.
pub open spec fn spec_on_chunk_loaded_text() -> Seq<char> {
    "var deferred = [];\n__webpack_require__.O = function (result, chunkIds, fn, priority) {\nif (chunkIds) {\npriority = priority || 0;\nfor (var i = deferred.length; i > 0 && deferred[i - 1][2] > priority; i--) deferred[i] = deferred[i - 1];\ndeferred[i] = [chunkIds, fn, priority];\nreturn;\n}\nvar notFulfilled = Infinity;\nfor (var i = 0; i < deferred.length; i++) {\nvar chunkIds = deferred[i][0];\nvar fn = deferred[i][1];\nvar priority = deferred[i][2];\nvar fulfilled = true;\nfor (var j = 0; j < chunkIds.length; j++) {\nif ((priority & 1 === 0 || notFulfilled >= priority) && Object.keys(__webpack_require__.O).every(function (key) { return __webpack_require__.O[key](chunkIds[j]); })) {\nchunkIds.splice(j--, 1);\n} else {\nfulfilled = false;\nif (priority < notFulfilled) notFulfilled = priority;\n}\n}\nif (fulfilled) {\ndeferred.splice(i--, 1);\nvar r = fn();\nif (r !== undefined) result = r;\n}\n}\nreturn result;\n};\n"@
}

/// Builds the on-chunk-loaded scheduler fragment.
pub fn build_on_chunk_loaded() -> (r: String)
    ensures
        r@ == spec_on_chunk_loaded_text(),
{
    String::from_str(
        "var deferred = [];\n__webpack_require__.O = function (result, chunkIds, fn, priority) {\nif (chunkIds) {\npriority = priority || 0;\nfor (var i = deferred.length; i > 0 && deferred[i - 1][2] > priority; i--) deferred[i] = deferred[i - 1];\ndeferred[i] = [chunkIds, fn, priority];\nreturn;\n}\nvar notFulfilled = Infinity;\nfor (var i = 0; i < deferred.length; i++) {\nvar chunkIds = deferred[i][0];\nvar fn = deferred[i][1];\nvar priority = deferred[i][2];\nvar fulfilled = true;\nfor (var j = 0; j < chunkIds.length; j++) {\nif ((priority & 1 === 0 || notFulfilled >= priority) && Object.keys(__webpack_require__.O).every(function (key) { return __webpack_require__.O[key](chunkIds[j]); })) {\nchunkIds.splice(j--, 1);\n} else {\nfulfilled = false;\nif (priority < notFulfilled) notFulfilled = priority;\n}\n}\nif (fulfilled) {\ndeferred.splice(i--, 1);\nvar r = fn();\nif (r !== undefined) result = r;\n}\n}\nreturn result;\n};\n",
    )
}

// --- chunk-completion callback fragment ---

/// The statement handing completed chunks to the deferred-module
/// scheduler, present only when on-chunk-loaded support is required.
pub open spec fn spec_with_on_chunk_load(on_chunk_load: bool) -> Seq<char> {
    if on_chunk_load {
        "return __webpack_require__.O(result);"@
    } else {
        ""@
    }
}

/// The expression naming the chunk-loading global array: the configured
/// global object indexed by the quoted chunk-loading global name.
pub open spec fn spec_chunk_loading_global_expr(
    global_object: Seq<char>,
    chunk_loading_global: Seq<char>,
) -> Seq<char> {
    global_object + "["@ + json_string_of(chunk_loading_global) + "]"@
}

/// The chunk-completion callback fragment template. The global-array
/// expression appears twice: once assigned, once as the fallback.
pub open spec fn spec_callback_template() -> Seq<PieceModel> {
    seq![
        PieceModel::Lit(
            "var webpackJsonpCallback = function (parentChunkLoadingFunction, data) {\nvar chunkIds = data[0];\nvar moreModules = data[1];\nvar runtime = data[2];\n// add \"moreModules\" to the modules object, then flag all \"chunkIds\" as loaded and fire callback\nvar moduleId, chunkId, i = 0;\nif (chunkIds.some(function (id) { return installedChunks[id] !== 0; })) {\nfor (moduleId in moreModules) {\nif (__webpack_require__.o(moreModules, moduleId)) {\n__webpack_require__.m[moduleId] = moreModules[moduleId];\n}\n}\nif (runtime) var result = runtime(__webpack_require__);\n}\nif (parentChunkLoadingFunction) parentChunkLoadingFunction(data);\nfor (; i < chunkIds.length; i++) {\nchunkId = chunkIds[i];\nif (__webpack_require__.o(installedChunks, chunkId) && installedChunks[chunkId]) {\ninstalledChunks[chunkId][0]();\n}\ninstalledChunks[chunkId] = 0;\n}\n"@,
        ),
        PieceModel::Hole(Placeholder::WithOnChunkLoad),
        PieceModel::Lit("\n};\n\nvar chunkLoadingGlobal = "@),
        PieceModel::Hole(Placeholder::ChunkLoadingGlobalExpr),
        PieceModel::Lit(" = "@),
        PieceModel::Hole(Placeholder::ChunkLoadingGlobalExpr),
        PieceModel::Lit(
            " || [];\nchunkLoadingGlobal.forEach(webpackJsonpCallback.bind(null, 0));\nchunkLoadingGlobal.push = webpackJsonpCallback.bind(null, chunkLoadingGlobal.push.bind(chunkLoadingGlobal));\n"@,
        ),
    ]
}

/// The chunk-completion callback fragment text.
pub open spec fn spec_callback_text(
    global_object: Seq<char>,
    chunk_loading_global: Seq<char>,
    on_chunk_load: bool,
) -> Seq<char> {
    filled(
        spec_callback_template(),
        BindingsModel {
            with_on_chunk_load: Some(spec_with_on_chunk_load(on_chunk_load)),
            chunk_loading_global_expr: Some(
                spec_chunk_loading_global_expr(global_object, chunk_loading_global),
            ),
            ..no_bindings()
        },
    )
}

fn callback_template() -> (t: Template)
    ensures
        t@ == spec_callback_template(),
{
    let mut pieces: Vec<Piece> = Vec::new();
    pieces.push(
        Piece::Lit(
            String::from_str(
                "var webpackJsonpCallback = function (parentChunkLoadingFunction, data) {\nvar chunkIds = data[0];\nvar moreModules = data[1];\nvar runtime = data[2];\n// add \"moreModules\" to the modules object, then flag all \"chunkIds\" as loaded and fire callback\nvar moduleId, chunkId, i = 0;\nif (chunkIds.some(function (id) { return installedChunks[id] !== 0; })) {\nfor (moduleId in moreModules) {\nif (__webpack_require__.o(moreModules, moduleId)) {\n__webpack_require__.m[moduleId] = moreModules[moduleId];\n}\n}\nif (runtime) var result = runtime(__webpack_require__);\n}\nif (parentChunkLoadingFunction) parentChunkLoadingFunction(data);\nfor (; i < chunkIds.length; i++) {\nchunkId = chunkIds[i];\nif (__webpack_require__.o(installedChunks, chunkId) && installedChunks[chunkId]) {\ninstalledChunks[chunkId][0]();\n}\ninstalledChunks[chunkId] = 0;\n}\n",
            ),
        ),
    );
    pieces.push(Piece::Hole(Placeholder::WithOnChunkLoad));
    pieces.push(Piece::Lit(String::from_str("\n};\n\nvar chunkLoadingGlobal = ")));
    pieces.push(Piece::Hole(Placeholder::ChunkLoadingGlobalExpr));
    pieces.push(Piece::Lit(String::from_str(" = ")));
    pieces.push(Piece::Hole(Placeholder::ChunkLoadingGlobalExpr));
    pieces.push(
        Piece::Lit(
            String::from_str(
                " || [];\nchunkLoadingGlobal.forEach(webpackJsonpCallback.bind(null, 0));\nchunkLoadingGlobal.push = webpackJsonpCallback.bind(null, chunkLoadingGlobal.push.bind(chunkLoadingGlobal));\n",
            ),
        ),
    );
    let t = Template { pieces };
    proof {
        assert(t@ =~= spec_callback_template());
    }
    t
}

/// Builds the chunk-completion callback fragment: the jsonp callback and
/// the hand-over of the chunk-loading global array.
pub fn build_callback(chunk: &str, config: &OutputConfig, on_chunk_load: bool) -> (r: String)
    ensures
        r@ == spec_callback_text(
            config@.global_object,
            config@.chunk_loading_global,
            on_chunk_load,
        ),
{
    let with_load = if on_chunk_load {
        String::from_str("return __webpack_require__.O(result);")
    } else {
        String::from_str("")
    };
    let mut expr = config.global_object.clone();
    expr.append("[");
    let q = json_quote(config.chunk_loading_global.as_str());
    expr.append(q.as_str());
    expr.append("]");
    let t = callback_template();
    let b = Bindings {
        with_on_chunk_load: Some(with_load),
        chunk_loading_global_expr: Some(expr),
        ..Bindings::empty()
    };
    proof {
        assert(resolved(t@, b@));
    }
    match fill(chunk, FragmentKind::Callback, &t, &b) {
        Ok(s) => s,
        Err(_) => {
            proof {
                assert(false);
            }
            String::from_str("")
        },
    }
}

} // verus!
