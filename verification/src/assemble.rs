use vstd::prelude::*;

use crate::fragments::{
    build_base_uri, build_callback, build_ensure_chunk, build_hmr_manifest, build_hmr_update,
    build_on_chunk_loaded, build_prefetch, build_preload, build_state_table, config_valid,
    prefetch_link_draft, preload_link_draft, spec_base_uri_template, spec_base_uri_text,
    spec_base_uri_value, spec_callback_template, spec_callback_text,
    spec_chunk_loading_global_expr, spec_ensure_body, spec_ensure_chunk_template,
    spec_ensure_chunk_text, spec_fetch_priority, spec_hmr_manifest_text, spec_hmr_update_template,
    spec_hmr_update_text, spec_initial_chunks, spec_on_chunk_loaded_text, spec_prefetch_draft,
    spec_prefetch_template, spec_prefetch_text, spec_preload_draft, spec_preload_template,
    spec_preload_text, spec_state_prefix, spec_state_table_template, spec_state_table_text,
    spec_with_on_chunk_load, ConfigModel, CrossOrigin, OutputConfig,
};
use crate::json::json_string_of;
use crate::matcher::{compile, spec_compile, spec_render, wf_entries, ConditionMap, Matcher, MatcherModel};
use crate::template::{
    filled, no_bindings, resolved, BindingsModel, FragmentKind, GenError, PieceModel,
};

verus! {

/// The externally discovered capability flags: which handlers the emitted
/// runtime must provide. Flags are independent; one flag may both gate a
/// fragment and parametrize another.
#[derive(Clone, Copy, Debug)]
pub struct RuntimeFlags {
    /// The runtime's base-URI slot is assigned.
    pub base_uri: bool,
    /// The ensure-chunk handler is installed.
    pub loading: bool,
    /// Completed chunks are handed to the deferred-module scheduler.
    pub on_chunk_load: bool,
    /// The HMR download handlers are installed.
    pub hmr: bool,
    /// The HMR manifest fetcher is installed.
    pub hmr_manifest: bool,
    /// The chunk-arrival callback is installed even without loading.
    pub callback: bool,
    /// The prefetch handler is installed.
    pub prefetch: bool,
    /// The preload handler is installed.
    pub preload: bool,
    /// The ensure-chunk handler threads a fetch priority through.
    pub fetch_priority: bool,
}

/// What the extension decorating a fragment returned: no extension is
/// registered, a replacement snippet, or an error message.
#[derive(Debug)]
pub enum HookOutcome {
    NoHook,
    Replaced(String),
    Failed(String),
}

/// The mathematical shape of a hook outcome.
pub enum HookOutcomeModel {
    NoHook,
    Replaced(Seq<char>),
    Failed(Seq<char>),
}

impl View for HookOutcome {
    type V = HookOutcomeModel;

    open spec fn view(&self) -> HookOutcomeModel {
        match self {
            HookOutcome::NoHook => HookOutcomeModel::NoHook,
            HookOutcome::Replaced(s) => HookOutcomeModel::Replaced(s@),
            HookOutcome::Failed(s) => HookOutcomeModel::Failed(s@),
        }
    }
}

/// One emitted fragment: its name and its final text.
#[derive(Debug)]
pub struct Fragment {
    pub kind: FragmentKind,
    pub text: String,
}

/// The mathematical shape of an emitted fragment.
pub struct FragmentModel {
    pub kind: FragmentKind,
    pub text: Seq<char>,
}

impl View for Fragment {
    type V = FragmentModel;

    open spec fn view(&self) -> FragmentModel {
        FragmentModel { kind: self.kind, text: self.text@ }
    }
}

/// The ordered artifact: the emitted fragments with their boundaries
/// kept, so a downstream stage can attribute lines to fragments.
#[derive(Debug)]
pub struct Artifact {
    pub fragments: Vec<Fragment>,
}

impl View for Artifact {
    type V = Seq<FragmentModel>;

    open spec fn view(&self) -> Seq<FragmentModel> {
        Seq::new(self.fragments@.len(), |i: int| self.fragments@[i]@)
    }
}

/// The fixed emission order of the fragments.
pub open spec fn fragment_order() -> Seq<FragmentKind> {
    seq![
        FragmentKind::BaseUri,
        FragmentKind::StateTable,
        FragmentKind::EnsureChunk,
        FragmentKind::Prefetch,
        FragmentKind::Preload,
        FragmentKind::HmrUpdate,
        FragmentKind::HmrManifest,
        FragmentKind::OnChunkLoaded,
        FragmentKind::Callback,
    ]
}

/// Whether a fragment is emitted: the state table always is; each other
/// fragment is gated by its own flag alone, and the resource-hint
/// handlers are omitted entirely when the matcher is constant-false,
/// since no chunk would ever qualify.
pub open spec fn selected(k: FragmentKind, flags: RuntimeFlags, m: MatcherModel) -> bool {
    match k {
        FragmentKind::BaseUri => flags.base_uri,
        FragmentKind::StateTable => true,
        FragmentKind::EnsureChunk => flags.loading,
        FragmentKind::Prefetch => flags.prefetch && !(m is AlwaysFalse),
        FragmentKind::Preload => flags.preload && !(m is AlwaysFalse),
        FragmentKind::HmrUpdate => flags.hmr,
        FragmentKind::HmrManifest => flags.hmr_manifest,
        FragmentKind::OnChunkLoaded => flags.on_chunk_load,
        FragmentKind::Callback => flags.callback,
    }
}

/// A singleton of the kind when it is selected, else nothing.
pub open spec fn kind_if(k: FragmentKind, flags: RuntimeFlags, m: MatcherModel) -> Seq<
    FragmentKind,
> {
    if selected(k, flags, m) {
        seq![k]
    } else {
        Seq::empty()
    }
}

/// The kinds the artifact holds, in emission order.
pub open spec fn selected_kinds(flags: RuntimeFlags, m: MatcherModel) -> Seq<FragmentKind> {
    kind_if(FragmentKind::BaseUri, flags, m) + kind_if(FragmentKind::StateTable, flags, m)
        + kind_if(FragmentKind::EnsureChunk, flags, m) + kind_if(FragmentKind::Prefetch, flags, m)
        + kind_if(FragmentKind::Preload, flags, m) + kind_if(FragmentKind::HmrUpdate, flags, m)
        + kind_if(FragmentKind::HmrManifest, flags, m) + kind_if(
        FragmentKind::OnChunkLoaded,
        flags,
        m,
    ) + kind_if(FragmentKind::Callback, flags, m)
}

/// The snippet spliced into a decorated fragment: the extension's
/// replacement, or the locally assembled draft when none is registered.
pub open spec fn spec_link_code(hook: HookOutcomeModel, draft: Seq<char>) -> Seq<char> {
    match hook {
        HookOutcomeModel::NoHook => draft,
        HookOutcomeModel::Replaced(s) => s,
        HookOutcomeModel::Failed(_) => draft,
    }
}

/// The final text of each fragment, as a function of the inputs alone.
pub open spec fn spec_fragment_text(
    k: FragmentKind,
    flags: RuntimeFlags,
    c: ConfigModel,
    m: MatcherModel,
    initial: Seq<Seq<char>>,
    prefetch_hook: HookOutcomeModel,
    preload_hook: HookOutcomeModel,
) -> Seq<char> {
    match k {
        FragmentKind::BaseUri => spec_base_uri_text(c.base_uri),
        FragmentKind::StateTable => spec_state_table_text(flags.hmr, initial),
        FragmentKind::EnsureChunk => spec_ensure_chunk_text(m, flags.fetch_priority),
        FragmentKind::Prefetch => spec_prefetch_text(
            m,
            spec_link_code(prefetch_hook, spec_prefetch_draft(c.charset, c.cross_origin)),
        ),
        FragmentKind::Preload => spec_preload_text(
            m,
            spec_link_code(
                preload_hook,
                spec_preload_draft(c.charset, c.script_type, c.cross_origin),
            ),
        ),
        FragmentKind::HmrUpdate => spec_hmr_update_text(c.global_object, c.hot_update_global),
        FragmentKind::HmrManifest => spec_hmr_manifest_text(),
        FragmentKind::OnChunkLoaded => spec_on_chunk_loaded_text(),
        FragmentKind::Callback => spec_callback_text(
            c.global_object,
            c.chunk_loading_global,
            flags.on_chunk_load,
        ),
    }
}

/// The kinds of the fragments, in order.
pub open spec fn kinds_of(a: Seq<FragmentModel>) -> Seq<FragmentKind> {
    Seq::new(a.len(), |i: int| a[i].kind)
}

/// The artifact generation owes: the selected kinds in the fixed order,
/// each carrying its specified text.
pub open spec fn artifact_matches(
    a: Seq<FragmentModel>,
    flags: RuntimeFlags,
    c: ConfigModel,
    m: MatcherModel,
    initial: Seq<Seq<char>>,
    prefetch_hook: HookOutcomeModel,
    preload_hook: HookOutcomeModel,
) -> bool {
    &&& kinds_of(a) == selected_kinds(flags, m)
    &&& forall|i: int|
        0 <= i < a.len() ==> (#[trigger] a[i]).text == spec_fragment_text(
            a[i].kind,
            flags,
            c,
            m,
            initial,
            prefetch_hook,
            preload_hook,
        )
}

/// Whether generation succeeds: the configuration must be acceptable and
/// no decorating extension of a selected fragment may have failed.
pub open spec fn spec_generation_ok(
    flags: RuntimeFlags,
    c: ConfigModel,
    m: MatcherModel,
    prefetch_hook: HookOutcomeModel,
    preload_hook: HookOutcomeModel,
) -> bool {
    &&& config_valid(c)
    &&& selected(FragmentKind::Prefetch, flags, m) ==> !(prefetch_hook is Failed)
    &&& selected(FragmentKind::Preload, flags, m) ==> !(preload_hook is Failed)
}

/// The snippet offered to the decorate-prefetch extension: the locally
/// assembled prefetch link code, present exactly when the prefetch
/// fragment is selected.
pub fn prefetch_request(
    chunk: &str,
    flags: &RuntimeFlags,
    config: &OutputConfig,
    conditions: &ConditionMap,
) -> (r: Option<String>)
    requires
        wf_entries(conditions@),
    ensures
        match r {
            Some(s) => selected(FragmentKind::Prefetch, *flags, spec_compile(conditions@)) && s@
                == spec_prefetch_draft(config@.charset, config@.cross_origin),
            None => !selected(FragmentKind::Prefetch, *flags, spec_compile(conditions@)),
        },
{
    let m = compile(conditions);
    let not_false = match m {
        Matcher::AlwaysFalse => false,
        _ => true,
    };
    if flags.prefetch && not_false {
        Some(prefetch_link_draft(chunk, config))
    } else {
        None
    }
}

/// The snippet offered to the decorate-preload extension: the locally
/// assembled preload link code, present exactly when the preload
/// fragment is selected.
pub fn preload_request(
    chunk: &str,
    flags: &RuntimeFlags,
    config: &OutputConfig,
    conditions: &ConditionMap,
) -> (r: Option<String>)
    requires
        wf_entries(conditions@),
    ensures
        match r {
            Some(s) => selected(FragmentKind::Preload, *flags, spec_compile(conditions@)) && s@
                == spec_preload_draft(config@.charset, config@.script_type, config@.cross_origin),
            None => !selected(FragmentKind::Preload, *flags, spec_compile(conditions@)),
        },
{
    let m = compile(conditions);
    let not_false = match m {
        Matcher::AlwaysFalse => false,
        _ => true,
    };
    if flags.preload && not_false {
        Some(preload_link_draft(chunk, config))
    } else {
        None
    }
}

/// Generates one chunk's runtime module. The condition map, flags and
/// configuration are read only; the hook outcomes are the responses of
/// the decorating extensions, gathered by the caller (`NoHook` when none
/// is registered). Returns the ordered artifact, or the first error:
/// an unsupported configuration, then a failed prefetch extension, then
/// a failed preload extension; an unresolved placeholder never escapes,
/// since every selected fragment is materialized with complete bindings.
#[verifier::rlimit(100)]
pub fn generate(
    chunk: &str,
    flags: &RuntimeFlags,
    config: &OutputConfig,
    conditions: &ConditionMap,
    initial: &Vec<String>,
    prefetch_hook: &HookOutcome,
    preload_hook: &HookOutcome,
) -> (r: Result<Artifact, GenError>)
    requires
        wf_entries(conditions@),
    ensures
        ({
            let m = spec_compile(conditions@);
            let ok = spec_generation_ok(*flags, config@, m, prefetch_hook@, preload_hook@);
            &&& (r is Ok <==> ok)
            &&& (r matches Ok(a) ==> artifact_matches(
                a@,
                *flags,
                config@,
                m,
                initial.deep_view(),
                prefetch_hook@,
                preload_hook@,
            ))
            &&& (!config_valid(config@) ==> (r matches Err(e) && (e matches
                GenError::InvalidCrossOrigin { chunk: c } && c@ == chunk@)))
            &&& (config_valid(config@) && selected(FragmentKind::Prefetch, *flags, m)
                && prefetch_hook@ is Failed ==> (r matches Err(e) && (e matches
                GenError::HookFailed { chunk: c, fragment: f, message: msg } && c@ == chunk@ && f
                == FragmentKind::Prefetch && msg@ == prefetch_hook@.arrow_Failed_0())))
            &&& (config_valid(config@) && !(selected(FragmentKind::Prefetch, *flags, m)
                && prefetch_hook@ is Failed) && selected(FragmentKind::Preload, *flags, m)
                && preload_hook@ is Failed ==> (r matches Err(e) && (e matches
                GenError::HookFailed { chunk: c, fragment: f, message: msg } && c@ == chunk@ && f
                == FragmentKind::Preload && msg@ == preload_hook@.arrow_Failed_0())))
            &&& (r matches Err(e) ==> !(e is UnresolvedPlaceholder))
        }),
{
    match &config.cross_origin {
        CrossOrigin::Custom(v) => {
            if v.as_str().is_empty() {
                return Err(GenError::InvalidCrossOrigin { chunk: String::from_str(chunk) });
            }
        },
        _ => {},
    }
    let m = compile(conditions);
    let not_false = match m {
        Matcher::AlwaysFalse => false,
        _ => true,
    };
    let ghost mv = spec_compile(conditions@);
    let mut frags: Vec<Fragment> = Vec::new();

    if flags.base_uri {
        frags.push(Fragment { kind: FragmentKind::BaseUri, text: build_base_uri(chunk, config) });
    }
    frags.push(
        Fragment {
            kind: FragmentKind::StateTable,
            text: build_state_table(chunk, flags.hmr, initial),
        },
    );
    if flags.loading {
        frags.push(
            Fragment {
                kind: FragmentKind::EnsureChunk,
                text: build_ensure_chunk(chunk, &m, flags.fetch_priority),
            },
        );
    }
    if flags.prefetch && not_false {
        let link: String = match prefetch_hook {
            HookOutcome::NoHook => prefetch_link_draft(chunk, config),
            HookOutcome::Replaced(s) => s.clone(),
            HookOutcome::Failed(msg) => {
                return Err(
                    GenError::HookFailed {
                        chunk: String::from_str(chunk),
                        fragment: FragmentKind::Prefetch,
                        message: msg.clone(),
                    },
                );
            },
        };
        frags.push(
            Fragment { kind: FragmentKind::Prefetch, text: build_prefetch(chunk, &m, link) },
        );
    }
    if flags.preload && not_false {
        let link: String = match preload_hook {
            HookOutcome::NoHook => preload_link_draft(chunk, config),
            HookOutcome::Replaced(s) => s.clone(),
            HookOutcome::Failed(msg) => {
                return Err(
                    GenError::HookFailed {
                        chunk: String::from_str(chunk),
                        fragment: FragmentKind::Preload,
                        message: msg.clone(),
                    },
                );
            },
        };
        frags.push(Fragment { kind: FragmentKind::Preload, text: build_preload(chunk, &m, link) });
    }
    if flags.hmr {
        frags.push(
            Fragment { kind: FragmentKind::HmrUpdate, text: build_hmr_update(chunk, config) },
        );
    }
    if flags.hmr_manifest {
        frags.push(Fragment { kind: FragmentKind::HmrManifest, text: build_hmr_manifest() });
    }
    if flags.on_chunk_load {
        frags.push(Fragment { kind: FragmentKind::OnChunkLoaded, text: build_on_chunk_loaded() });
    }
    if flags.callback {
        frags.push(
            Fragment {
                kind: FragmentKind::Callback,
                text: build_callback(chunk, config, flags.on_chunk_load),
            },
        );
    }
    let a = Artifact { fragments: frags };
    proof {
        assert(kinds_of(a@) =~= selected_kinds(*flags, mv));
    }
    Ok(a)
}

/// The artifact as one source text: the fragments concatenated in order,
/// append-only.
pub open spec fn spec_rendered(a: Seq<FragmentModel>) -> Seq<char>
    decreases a.len(),
{
    if a.len() == 0 {
        Seq::empty()
    } else {
        spec_rendered(a.drop_last()) + a.last().text
    }
}

/// Concatenates the fragments, in order, into the final source text.
pub fn rendered(a: &Artifact) -> (r: String)
    ensures
        r@ == spec_rendered(a@),
{
    let mut r = String::new();
    let mut i: usize = 0;
    while i < a.fragments.len()
        invariant
            i <= a.fragments.len(),
            a@.len() == a.fragments@.len(),
            r@ == spec_rendered(a@.take(i as int)),
        decreases a.fragments.len() - i,
    {
        r.append(a.fragments[i].text.as_str());
        proof {
            assert(a@.take(i + 1).drop_last() =~= a@.take(i as int));
        }
        i += 1;
    }
    proof {
        assert(a@.take(a.fragments@.len() as int) =~= a@);
    }
    r
}

/// Fragment ordering: for every flag combination the artifact's kinds
/// are exactly the selected members of the fixed order, kept in that
/// order; an absent fragment is skipped, never reordered.
/// The runtime symbols one fragment installs in the emitted module.
pub open spec fn spec_globals_of(k: FragmentKind) -> Seq<Seq<char>> {
    match k {
        FragmentKind::BaseUri => seq!["__webpack_require__.b"@],
        FragmentKind::StateTable => seq!["installedChunks"@],
        FragmentKind::EnsureChunk => seq!["__webpack_require__.f.j"@],
        FragmentKind::Prefetch => seq!["__webpack_require__.F.j"@],
        FragmentKind::Preload => seq!["__webpack_require__.H.j"@],
        FragmentKind::HmrUpdate => seq![
            "__webpack_require__.hmrI.jsonp"@,
            "__webpack_require__.hmrC.jsonp"@,
        ],
        FragmentKind::HmrManifest => seq!["__webpack_require__.hmrM"@],
        FragmentKind::OnChunkLoaded => seq!["__webpack_require__.O"@],
        FragmentKind::Callback => seq!["webpackJsonpCallback"@],
    }
}

/// The runtime symbols a sequence of fragments installs, in order.
pub open spec fn spec_defined_globals(ks: Seq<FragmentKind>) -> Seq<Seq<char>>
    decreases ks.len(),
{
    if ks.len() == 0 {
        Seq::empty()
    } else {
        spec_defined_globals(ks.drop_last()) + spec_globals_of(ks.last())
    }
}

/// The runtime global symbols the artifact defines, in fragment order,
/// for downstream linking of the bundle entry code.
pub fn defined_globals(a: &Artifact) -> (r: Vec<String>)
    ensures
        r.deep_view() == spec_defined_globals(kinds_of(a@)),
{
    let ghost ks = kinds_of(a@);
    let mut r: Vec<String> = Vec::new();
    let mut i: usize = 0;
    while i < a.fragments.len()
        invariant
            i <= a.fragments.len(),
            ks == kinds_of(a@),
            ks.len() == a.fragments@.len(),
            r.deep_view() == spec_defined_globals(ks.take(i as int)),
        decreases a.fragments.len() - i,
    {
        let ghost old_dv = r.deep_view();
        match a.fragments[i].kind {
            FragmentKind::BaseUri => r.push(String::from_str("__webpack_require__.b")),
            FragmentKind::StateTable => r.push(String::from_str("installedChunks")),
            FragmentKind::EnsureChunk => r.push(String::from_str("__webpack_require__.f.j")),
            FragmentKind::Prefetch => r.push(String::from_str("__webpack_require__.F.j")),
            FragmentKind::Preload => r.push(String::from_str("__webpack_require__.H.j")),
            FragmentKind::HmrUpdate => {
                r.push(String::from_str("__webpack_require__.hmrI.jsonp"));
                r.push(String::from_str("__webpack_require__.hmrC.jsonp"));
            },
            FragmentKind::HmrManifest => r.push(String::from_str("__webpack_require__.hmrM")),
            FragmentKind::OnChunkLoaded => r.push(String::from_str("__webpack_require__.O")),
            FragmentKind::Callback => r.push(String::from_str("webpackJsonpCallback")),
        }
        proof {
            assert(ks.take(i + 1).drop_last() =~= ks.take(i as int));
            assert(ks.take(i + 1).last() == ks[i as int]);
            assert(r.deep_view() =~= old_dv + spec_globals_of(ks[i as int]));
        }
        i += 1;
    }
    proof {
        assert(ks.take(ks.len() as int) =~= ks);
    }
    r
}

/// The selected members of a kind list, kept in list order.
pub open spec fn select_from(ks: Seq<FragmentKind>, flags: RuntimeFlags, m: MatcherModel) -> Seq<
    FragmentKind,
>
    decreases ks.len(),
{
    if ks.len() == 0 {
        Seq::empty()
    } else {
        let r = select_from(ks.drop_last(), flags, m);
        if selected(ks.last(), flags, m) {
            r.push(ks.last())
        } else {
            r
        }
    }
}

/// The position of a kind in the fixed emission order.
pub open spec fn order_index(k: FragmentKind) -> int {
    match k {
        FragmentKind::BaseUri => 0,
        FragmentKind::StateTable => 1,
        FragmentKind::EnsureChunk => 2,
        FragmentKind::Prefetch => 3,
        FragmentKind::Preload => 4,
        FragmentKind::HmrUpdate => 5,
        FragmentKind::HmrManifest => 6,
        FragmentKind::OnChunkLoaded => 7,
        FragmentKind::Callback => 8,
    }
}

/// Selecting from a list sorted by emission order keeps exactly the
/// selected kinds, in strictly increasing emission order.
pub proof fn lemma_select_from_sorted(ks: Seq<FragmentKind>, flags: RuntimeFlags, m: MatcherModel)
    requires
        forall|i: int, j: int| 0 <= i < j < ks.len() ==> order_index(ks[i]) < order_index(ks[j]),
    ensures
        forall|i: int| 0 <= i < select_from(ks, flags, m).len() ==> selected(
            #[trigger] select_from(ks, flags, m)[i],
            flags,
            m,
        ) && ks.contains(select_from(ks, flags, m)[i]),
        forall|k: FragmentKind| ks.contains(k) && selected(k, flags, m) ==> select_from(
            ks,
            flags,
            m,
        ).contains(k),
        forall|i: int, j: int| 0 <= i < j < select_from(ks, flags, m).len() ==> order_index(
            select_from(ks, flags, m)[i],
        ) < order_index(select_from(ks, flags, m)[j]),
    decreases ks.len(),
{
    if ks.len() == 0 {
    } else {
        let prefix = ks.drop_last();
        lemma_select_from_sorted(prefix, flags, m);
        let r0 = select_from(prefix, flags, m);
        let r = select_from(ks, flags, m);
        assert forall|i: int| 0 <= i < r0.len() implies ks.contains(r0[i]) by {
            let j = choose|j: int| 0 <= j < prefix.len() && prefix[j] == r0[i];
            assert(ks[j] == r0[i]);
        }
        if selected(ks.last(), flags, m) {
            assert(r == r0.push(ks.last()));
            assert(ks.contains(ks.last())) by {
                assert(ks[ks.len() - 1] == ks.last());
            }
            assert forall|k: FragmentKind| ks.contains(k) && selected(k, flags, m) implies
                r.contains(k) by {
                let j = choose|j: int| 0 <= j < ks.len() && ks[j] == k;
                if j < ks.len() - 1 {
                    assert(prefix[j] == k);
                    assert(prefix.contains(k));
                    assert(r0.contains(k));
                    let i = choose|i: int| 0 <= i < r0.len() && r0[i] == k;
                    assert(r[i] == k);
                } else {
                    assert(r[r.len() - 1] == k);
                }
            }
            assert forall|i: int, j: int| 0 <= i < j < r.len() implies order_index(r[i])
                < order_index(r[j]) by {
                if j == r.len() - 1 {
                    let p = choose|p: int| 0 <= p < prefix.len() && prefix[p] == r0[i];
                    assert(ks[p] == r0[i] && p < ks.len() - 1);
                    assert(order_index(ks[p]) < order_index(ks.last()));
                }
            }
        } else {
            assert(r == r0);
            assert forall|k: FragmentKind| ks.contains(k) && selected(k, flags, m) implies
                r.contains(k) by {
                let j = choose|j: int| 0 <= j < ks.len() && ks[j] == k;
                assert(j < ks.len() - 1);
                assert(prefix[j] == k);
                assert(prefix.contains(k));
                assert(r0.contains(k));
            }
        }
    }
}

/// The concatenated selection equals selecting from the fixed order.
#[verifier::rlimit(100)]
#[verifier::spinoff_prover]
pub proof fn lemma_selected_kinds_from_order(flags: RuntimeFlags, m: MatcherModel)
    ensures
        selected_kinds(flags, m) == select_from(fragment_order(), flags, m),
{
    let s0: Seq<FragmentKind> = Seq::empty();
    let s1 = s0.push(FragmentKind::BaseUri);
    let s2 = s1.push(FragmentKind::StateTable);
    let s3 = s2.push(FragmentKind::EnsureChunk);
    let s4 = s3.push(FragmentKind::Prefetch);
    let s5 = s4.push(FragmentKind::Preload);
    let s6 = s5.push(FragmentKind::HmrUpdate);
    let s7 = s6.push(FragmentKind::HmrManifest);
    let s8 = s7.push(FragmentKind::OnChunkLoaded);
    let s9 = s8.push(FragmentKind::Callback);
    assert(s1.drop_last() =~= s0);
    assert(s2.drop_last() =~= s1);
    assert(s3.drop_last() =~= s2);
    assert(s4.drop_last() =~= s3);
    assert(s5.drop_last() =~= s4);
    assert(s6.drop_last() =~= s5);
    assert(s7.drop_last() =~= s6);
    assert(s8.drop_last() =~= s7);
    assert(s9.drop_last() =~= s8);
    assert(fragment_order() =~= s9);
    assert(select_from(s0, flags, m) =~= Seq::empty());
    assert(select_from(s1, flags, m) =~= select_from(s0, flags, m) + kind_if(
        FragmentKind::BaseUri,
        flags,
        m,
    ));
    assert(select_from(s2, flags, m) =~= select_from(s1, flags, m) + kind_if(
        FragmentKind::StateTable,
        flags,
        m,
    ));
    assert(select_from(s3, flags, m) =~= select_from(s2, flags, m) + kind_if(
        FragmentKind::EnsureChunk,
        flags,
        m,
    ));
    assert(select_from(s4, flags, m) =~= select_from(s3, flags, m) + kind_if(
        FragmentKind::Prefetch,
        flags,
        m,
    ));
    assert(select_from(s5, flags, m) =~= select_from(s4, flags, m) + kind_if(
        FragmentKind::Preload,
        flags,
        m,
    ));
    assert(select_from(s6, flags, m) =~= select_from(s5, flags, m) + kind_if(
        FragmentKind::HmrUpdate,
        flags,
        m,
    ));
    assert(select_from(s7, flags, m) =~= select_from(s6, flags, m) + kind_if(
        FragmentKind::HmrManifest,
        flags,
        m,
    ));
    assert(select_from(s8, flags, m) =~= select_from(s7, flags, m) + kind_if(
        FragmentKind::OnChunkLoaded,
        flags,
        m,
    ));
    assert(select_from(s9, flags, m) =~= select_from(s8, flags, m) + kind_if(
        FragmentKind::Callback,
        flags,
        m,
    ));
    assert(selected_kinds(flags, m) =~= select_from(s9, flags, m));
}

/// Fragment ordering: for every flag combination the artifact's kinds
/// are exactly the selected members of the fixed order: each emitted
/// kind is selected, each selected kind is emitted, and the emitted
/// kinds appear in strictly increasing emission order; an absent
/// fragment is skipped, never reordered.
pub proof fn lemma_fragment_order(flags: RuntimeFlags, m: MatcherModel)
    ensures
        forall|i: int| 0 <= i < selected_kinds(flags, m).len() ==> selected(
            #[trigger] selected_kinds(flags, m)[i],
            flags,
            m,
        ),
        forall|k: FragmentKind| selected(k, flags, m) ==> selected_kinds(flags, m).contains(k),
        forall|i: int, j: int| 0 <= i < j < selected_kinds(flags, m).len() ==> order_index(
            selected_kinds(flags, m)[i],
        ) < order_index(selected_kinds(flags, m)[j]),
{
    let order = fragment_order();
    assert forall|i: int, j: int| 0 <= i < j < order.len() implies order_index(order[i])
        < order_index(order[j]) by {}
    lemma_select_from_sorted(order, flags, m);
    lemma_selected_kinds_from_order(flags, m);
    assert forall|k: FragmentKind| selected(k, flags, m) implies selected_kinds(
        flags,
        m,
    ).contains(k) by {
        assert(order.contains(k)) by {
            assert(order[order_index(k)] == k);
        }
    }
}

/// Hook round trip: an extension returning the offered snippet unchanged
/// constrains the artifact exactly as no registered extension does, for
/// both decorated fragments; the output is therefore byte-identical.
pub proof fn lemma_identity_hook(
    a: Seq<FragmentModel>,
    flags: RuntimeFlags,
    c: ConfigModel,
    m: MatcherModel,
    initial: Seq<Seq<char>>,
)
    ensures
        artifact_matches(
            a,
            flags,
            c,
            m,
            initial,
            HookOutcomeModel::Replaced(spec_prefetch_draft(c.charset, c.cross_origin)),
            HookOutcomeModel::Replaced(
                spec_preload_draft(c.charset, c.script_type, c.cross_origin),
            ),
        ) <==> artifact_matches(
            a,
            flags,
            c,
            m,
            initial,
            HookOutcomeModel::NoHook,
            HookOutcomeModel::NoHook,
        ),
{
    let ph = HookOutcomeModel::Replaced(spec_prefetch_draft(c.charset, c.cross_origin));
    let lh = HookOutcomeModel::Replaced(spec_preload_draft(c.charset, c.script_type, c.cross_origin));
    assert forall|i: int| 0 <= i < a.len() implies spec_fragment_text(
        (#[trigger] a[i]).kind,
        flags,
        c,
        m,
        initial,
        ph,
        lh,
    ) == spec_fragment_text(a[i].kind, flags, c, m, initial, HookOutcomeModel::NoHook, HookOutcomeModel::NoHook) by {}
}


/// The template each fragment is materialized from; a fragment with no
/// holes is a single literal run.
pub open spec fn spec_fragment_template(k: FragmentKind) -> Seq<PieceModel> {
    match k {
        FragmentKind::BaseUri => spec_base_uri_template(),
        FragmentKind::StateTable => spec_state_table_template(),
        FragmentKind::EnsureChunk => spec_ensure_chunk_template(),
        FragmentKind::Prefetch => spec_prefetch_template(),
        FragmentKind::Preload => spec_preload_template(),
        FragmentKind::HmrUpdate => spec_hmr_update_template(),
        FragmentKind::HmrManifest => seq![PieceModel::Lit(spec_hmr_manifest_text())],
        FragmentKind::OnChunkLoaded => seq![PieceModel::Lit(spec_on_chunk_loaded_text())],
        FragmentKind::Callback => spec_callback_template(),
    }
}

/// The bindings each fragment is materialized with.
pub open spec fn spec_fragment_bindings(
    k: FragmentKind,
    flags: RuntimeFlags,
    c: ConfigModel,
    m: MatcherModel,
    initial: Seq<Seq<char>>,
    prefetch_hook: HookOutcomeModel,
    preload_hook: HookOutcomeModel,
) -> BindingsModel {
    match k {
        FragmentKind::BaseUri => BindingsModel {
            base_uri_value: Some(spec_base_uri_value(c.base_uri)),
            ..no_bindings()
        },
        FragmentKind::StateTable => BindingsModel {
            state_prefix: Some(spec_state_prefix(flags.hmr)),
            initial_chunks: Some(spec_initial_chunks(initial)),
            ..no_bindings()
        },
        FragmentKind::EnsureChunk => BindingsModel {
            fetch_priority: Some(spec_fetch_priority(flags.fetch_priority)),
            ensure_body: Some(spec_ensure_body(m, flags.fetch_priority)),
            ..no_bindings()
        },
        FragmentKind::Prefetch => BindingsModel {
            js_matcher: Some(spec_render(m, "chunkId"@)),
            link_prefetch: Some(
                spec_link_code(prefetch_hook, spec_prefetch_draft(c.charset, c.cross_origin)),
            ),
            ..no_bindings()
        },
        FragmentKind::Preload => BindingsModel {
            js_matcher: Some(spec_render(m, "chunkId"@)),
            link_preload: Some(
                spec_link_code(
                    preload_hook,
                    spec_preload_draft(c.charset, c.script_type, c.cross_origin),
                ),
            ),
            ..no_bindings()
        },
        FragmentKind::HmrUpdate => BindingsModel {
            global_object: Some(c.global_object),
            hot_update_global: Some(json_string_of(c.hot_update_global)),
            ..no_bindings()
        },
        FragmentKind::HmrManifest => no_bindings(),
        FragmentKind::OnChunkLoaded => no_bindings(),
        FragmentKind::Callback => BindingsModel {
            with_on_chunk_load: Some(spec_with_on_chunk_load(flags.on_chunk_load)),
            chunk_loading_global_expr: Some(
                spec_chunk_loading_global_expr(c.global_object, c.chunk_loading_global),
            ),
            ..no_bindings()
        },
    }
}

/// No dangling placeholder: whatever the inputs, every fragment's
/// bindings resolve every hole of its template, and the fragment's final
/// text is exactly the template with those values spliced in; no
/// placeholder survives substitution, and generation never fails on an
/// unresolved one.
pub proof fn lemma_no_dangling_placeholder(
    k: FragmentKind,
    flags: RuntimeFlags,
    c: ConfigModel,
    m: MatcherModel,
    initial: Seq<Seq<char>>,
    prefetch_hook: HookOutcomeModel,
    preload_hook: HookOutcomeModel,
)
    ensures
        resolved(
            spec_fragment_template(k),
            spec_fragment_bindings(k, flags, c, m, initial, prefetch_hook, preload_hook),
        ),
        spec_fragment_text(k, flags, c, m, initial, prefetch_hook, preload_hook) == filled(
            spec_fragment_template(k),
            spec_fragment_bindings(k, flags, c, m, initial, prefetch_hook, preload_hook),
        ),
{
    match k {
        FragmentKind::HmrManifest => {
            let t = spec_fragment_template(k);
            assert(t.drop_last() =~= Seq::<PieceModel>::empty());
            assert(filled(Seq::<PieceModel>::empty(), no_bindings()) =~= Seq::<char>::empty());
            assert(t.last() == PieceModel::Lit(spec_hmr_manifest_text()));
            assert(filled(t, no_bindings()) =~= Seq::<char>::empty()
                + spec_hmr_manifest_text());
            assert(Seq::<char>::empty() + spec_hmr_manifest_text() =~= spec_hmr_manifest_text());
        },
        FragmentKind::OnChunkLoaded => {
            let t = spec_fragment_template(k);
            assert(t.drop_last() =~= Seq::<PieceModel>::empty());
            assert(filled(Seq::<PieceModel>::empty(), no_bindings()) =~= Seq::<char>::empty());
            assert(t.last() == PieceModel::Lit(spec_on_chunk_loaded_text()));
            assert(filled(t, no_bindings()) =~= Seq::<char>::empty()
                + spec_on_chunk_loaded_text());
            assert(Seq::<char>::empty() + spec_on_chunk_loaded_text()
                =~= spec_on_chunk_loaded_text());
        },
        _ => {},
    }
}

} // verus!
