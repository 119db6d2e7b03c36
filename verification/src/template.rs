use vstd::prelude::*;

verus! {

/// The substitution keys that may occur as holes in a fragment template.
#[derive(Clone, Copy, PartialEq, Eq, Structural, Debug)]
pub enum Placeholder {
    BaseUriValue,
    StatePrefix,
    InitialChunks,
    FetchPriority,
    EnsureBody,
    JsMatcher,
    MatchFallback,
    LinkPrefetch,
    LinkPreload,
    LinkCharset,
    CrossOriginAttr,
    ScriptTypePre,
    ScriptTypePost,
    GlobalObject,
    HotUpdateGlobal,
    ChunkLoadingGlobalExpr,
    WithOnChunkLoad,
}

/// The named fragments of the emitted artifact, in their fixed emission
/// order: later fragments may reference runtime symbols declared by earlier
/// ones, so this order is a correctness requirement.
#[derive(Clone, Copy, PartialEq, Eq, Structural, Debug)]
pub enum FragmentKind {
    BaseUri,
    StateTable,
    EnsureChunk,
    Prefetch,
    Preload,
    HmrUpdate,
    HmrManifest,
    OnChunkLoaded,
    Callback,
}

/// Why generation of one chunk's runtime module failed. Every error names
/// the chunk so the surrounding build can attribute it.
#[derive(Debug)]
pub enum GenError {
    /// A selected fragment references a substitution key with no value.
    UnresolvedPlaceholder { chunk: String, fragment: FragmentKind, placeholder: Placeholder },
    /// The extension decorating this fragment reported an error.
    HookFailed { chunk: String, fragment: FragmentKind, message: String },
    /// The cross-origin policy holds an unsupported (empty) custom value.
    InvalidCrossOrigin { chunk: String },
}

/// One piece of a template: literal text, or a hole awaiting a value.
pub enum Piece {
    Lit(String),
    Hole(Placeholder),
}

/// The mathematical shape of a template piece.
pub enum PieceModel {
    Lit(Seq<char>),
    Hole(Placeholder),
}

impl View for Piece {
    type V = PieceModel;

    open spec fn view(&self) -> PieceModel {
        match self {
            Piece::Lit(s) => PieceModel::Lit(s@),
            Piece::Hole(p) => PieceModel::Hole(*p),
        }
    }
}

/// An immutable named template: literal runs interleaved with named holes.
/// Parametrization is pure splicing of the bound values, never partial and
/// never re-scanned: a value containing text that looks like a hole is
/// spliced as it is.
pub struct Template {
    pub pieces: Vec<Piece>,
}

impl View for Template {
    type V = Seq<PieceModel>;

    open spec fn view(&self) -> Seq<PieceModel> {
        Seq::new(self.pieces@.len(), |i: int| self.pieces@[i]@)
    }
}

/// The values available for substitution, one slot per placeholder.
pub struct Bindings {
    pub base_uri_value: Option<String>,
    pub state_prefix: Option<String>,
    pub initial_chunks: Option<String>,
    pub fetch_priority: Option<String>,
    pub ensure_body: Option<String>,
    pub js_matcher: Option<String>,
    pub match_fallback: Option<String>,
    pub link_prefetch: Option<String>,
    pub link_preload: Option<String>,
    pub link_charset: Option<String>,
    pub cross_origin_attr: Option<String>,
    pub script_type_pre: Option<String>,
    pub script_type_post: Option<String>,
    pub global_object: Option<String>,
    pub hot_update_global: Option<String>,
    pub chunk_loading_global_expr: Option<String>,
    pub with_on_chunk_load: Option<String>,
}

/// The mathematical shape of a binding table: the value each placeholder
/// is bound to, if any.
pub struct BindingsModel {
    pub base_uri_value: Option<Seq<char>>,
    pub state_prefix: Option<Seq<char>>,
    pub initial_chunks: Option<Seq<char>>,
    pub fetch_priority: Option<Seq<char>>,
    pub ensure_body: Option<Seq<char>>,
    pub js_matcher: Option<Seq<char>>,
    pub match_fallback: Option<Seq<char>>,
    pub link_prefetch: Option<Seq<char>>,
    pub link_preload: Option<Seq<char>>,
    pub link_charset: Option<Seq<char>>,
    pub cross_origin_attr: Option<Seq<char>>,
    pub script_type_pre: Option<Seq<char>>,
    pub script_type_post: Option<Seq<char>>,
    pub global_object: Option<Seq<char>>,
    pub hot_update_global: Option<Seq<char>>,
    pub chunk_loading_global_expr: Option<Seq<char>>,
    pub with_on_chunk_load: Option<Seq<char>>,
}

/// A binding table with every slot empty.
pub open spec fn no_bindings() -> BindingsModel {
    BindingsModel {
        base_uri_value: None,
        state_prefix: None,
        initial_chunks: None,
        fetch_priority: None,
        ensure_body: None,
        js_matcher: None,
        match_fallback: None,
        link_prefetch: None,
        link_preload: None,
        link_charset: None,
        cross_origin_attr: None,
        script_type_pre: None,
        script_type_post: None,
        global_object: None,
        hot_update_global: None,
        chunk_loading_global_expr: None,
        with_on_chunk_load: None,
    }
}

/// The view of one slot.
pub open spec fn slot_view(s: Option<String>) -> Option<Seq<char>> {
    match s {
        Some(v) => Some(v@),
        None => None,
    }
}

impl View for Bindings {
    type V = BindingsModel;

    open spec fn view(&self) -> BindingsModel {
        BindingsModel {
            base_uri_value: slot_view(self.base_uri_value),
            state_prefix: slot_view(self.state_prefix),
            initial_chunks: slot_view(self.initial_chunks),
            fetch_priority: slot_view(self.fetch_priority),
            ensure_body: slot_view(self.ensure_body),
            js_matcher: slot_view(self.js_matcher),
            match_fallback: slot_view(self.match_fallback),
            link_prefetch: slot_view(self.link_prefetch),
            link_preload: slot_view(self.link_preload),
            link_charset: slot_view(self.link_charset),
            cross_origin_attr: slot_view(self.cross_origin_attr),
            script_type_pre: slot_view(self.script_type_pre),
            script_type_post: slot_view(self.script_type_post),
            global_object: slot_view(self.global_object),
            hot_update_global: slot_view(self.hot_update_global),
            chunk_loading_global_expr: slot_view(self.chunk_loading_global_expr),
            with_on_chunk_load: slot_view(self.with_on_chunk_load),
        }
    }
}

/// The value bound to a placeholder, as a character sequence.
pub open spec fn binding_of(b: BindingsModel, p: Placeholder) -> Option<Seq<char>> {
    match p {
        Placeholder::BaseUriValue => b.base_uri_value,
        Placeholder::StatePrefix => b.state_prefix,
        Placeholder::InitialChunks => b.initial_chunks,
        Placeholder::FetchPriority => b.fetch_priority,
        Placeholder::EnsureBody => b.ensure_body,
        Placeholder::JsMatcher => b.js_matcher,
        Placeholder::MatchFallback => b.match_fallback,
        Placeholder::LinkPrefetch => b.link_prefetch,
        Placeholder::LinkPreload => b.link_preload,
        Placeholder::LinkCharset => b.link_charset,
        Placeholder::CrossOriginAttr => b.cross_origin_attr,
        Placeholder::ScriptTypePre => b.script_type_pre,
        Placeholder::ScriptTypePost => b.script_type_post,
        Placeholder::GlobalObject => b.global_object,
        Placeholder::HotUpdateGlobal => b.hot_update_global,
        Placeholder::ChunkLoadingGlobalExpr => b.chunk_loading_global_expr,
        Placeholder::WithOnChunkLoad => b.with_on_chunk_load,
    }
}

impl Bindings {
    /// A binding table with every slot empty.
    pub fn empty() -> (r: Bindings)
        ensures
            r@ == no_bindings(),
            forall|p: Placeholder| binding_of(r@, p) is None,
    {
        Bindings {
            base_uri_value: None,
            state_prefix: None,
            initial_chunks: None,
            fetch_priority: None,
            ensure_body: None,
            js_matcher: None,
            match_fallback: None,
            link_prefetch: None,
            link_preload: None,
            link_charset: None,
            cross_origin_attr: None,
            script_type_pre: None,
            script_type_post: None,
            global_object: None,
            hot_update_global: None,
            chunk_loading_global_expr: None,
            with_on_chunk_load: None,
        }
    }

    /// The value bound to a placeholder, if any.
    pub fn get(&self, p: Placeholder) -> (r: Option<&String>)
        ensures
            match r {
                Some(s) => binding_of(self@, p) == Some(s@),
                None => binding_of(self@, p) is None,
            },
    {
        let slot = match p {
            Placeholder::BaseUriValue => &self.base_uri_value,
            Placeholder::StatePrefix => &self.state_prefix,
            Placeholder::InitialChunks => &self.initial_chunks,
            Placeholder::FetchPriority => &self.fetch_priority,
            Placeholder::EnsureBody => &self.ensure_body,
            Placeholder::JsMatcher => &self.js_matcher,
            Placeholder::MatchFallback => &self.match_fallback,
            Placeholder::LinkPrefetch => &self.link_prefetch,
            Placeholder::LinkPreload => &self.link_preload,
            Placeholder::LinkCharset => &self.link_charset,
            Placeholder::CrossOriginAttr => &self.cross_origin_attr,
            Placeholder::ScriptTypePre => &self.script_type_pre,
            Placeholder::ScriptTypePost => &self.script_type_post,
            Placeholder::GlobalObject => &self.global_object,
            Placeholder::HotUpdateGlobal => &self.hot_update_global,
            Placeholder::ChunkLoadingGlobalExpr => &self.chunk_loading_global_expr,
            Placeholder::WithOnChunkLoad => &self.with_on_chunk_load,
        };
        slot.as_ref()
    }
}

/// The text a piece contributes once substitution succeeds.
pub open spec fn piece_text(p: PieceModel, b: BindingsModel) -> Seq<char> {
    match p {
        PieceModel::Lit(s) => s,
        PieceModel::Hole(h) => match binding_of(b, h) {
            Some(v) => v,
            None => Seq::empty(),
        },
    }
}

/// Every hole of the template has a bound value.
pub open spec fn resolved(pieces: Seq<PieceModel>, b: BindingsModel) -> bool {
    forall|i: int|
        0 <= i < pieces.len() ==> ((#[trigger] pieces[i]) matches PieceModel::Hole(h)
            ==> binding_of(b, h) is Some)
}

/// The template's text with every hole replaced by its bound value.
pub open spec fn filled(pieces: Seq<PieceModel>, b: BindingsModel) -> Seq<char>
    decreases pieces.len(),
{
    if pieces.len() == 0 {
        Seq::empty()
    } else {
        filled(pieces.drop_last(), b) + piece_text(pieces.last(), b)
    }
}

/// Materializes a template: splices the bound value into each hole, or
/// fails on the first hole with no value, naming the chunk, the fragment
/// and the missing key. A bound value is spliced exactly once and never
/// re-scanned for further holes.
pub fn fill(chunk: &str, kind: FragmentKind, t: &Template, b: &Bindings) -> (r: Result<
    String,
    GenError,
>)
    ensures
        resolved(t@, b@) ==> (r matches Ok(s) && s@ == filled(t@, b@)),
        !resolved(t@, b@) ==> (r matches Err(e)
            && (e matches GenError::UnresolvedPlaceholder { chunk: c, fragment: f, placeholder: _ }
            && c@ == chunk@ && f == kind)),
{
    let mut out = String::new();
    let mut i: usize = 0;
    while i < t.pieces.len()
        invariant
            i <= t.pieces.len(),
            t@.len() == t.pieces@.len(),
            forall|j: int|
                0 <= j < i ==> ((#[trigger] t@[j]) matches PieceModel::Hole(h) ==> binding_of(
                    b@,
                    h,
                ) is Some),
            out@ == filled(t@.take(i as int), b@),
        decreases t.pieces.len() - i,
    {
        match &t.pieces[i] {
            Piece::Lit(s) => {
                out.append(s.as_str());
            },
            Piece::Hole(p) => {
                match b.get(*p) {
                    Some(v) => {
                        out.append(v.as_str());
                    },
                    None => {
                        proof {
                            assert(t@[i as int] matches PieceModel::Hole(h) && binding_of(
                                b@,
                                h,
                            ) is None);
                        }
                        return Err(
                            GenError::UnresolvedPlaceholder {
                                chunk: String::from_str(chunk),
                                fragment: kind,
                                placeholder: *p,
                            },
                        );
                    },
                }
            },
        }
        proof {
            assert(t@.take(i + 1).drop_last() =~= t@.take(i as int));
        }
        i += 1;
    }
    proof {
        assert(t@.take(t.pieces@.len() as int) =~= t@);
    }
    Ok(out)
}

} // verus!
