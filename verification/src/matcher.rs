use vstd::prelude::*;

use crate::json::{json_quote, json_string_of};
use crate::text::{join_from, join_with};

verus! {

/// Largest group for which the rendered expression is a chain of equality
/// comparisons; a larger group is rendered as an array-membership test.
/// One fixed policy, applied to every matcher.
pub const EQ_CHAIN_MAX: usize = 3;

/// Per-chunk boolean predicate results, keyed by chunk id. Built once per
/// generation pass and then consumed immutably; keys are distinct.
pub struct ConditionMap {
    entries: Vec<(String, bool)>,
}

impl View for ConditionMap {
    type V = Seq<(Seq<char>, bool)>;

    closed spec fn view(&self) -> Seq<(Seq<char>, bool)> {
        Seq::new(self.entries@.len(), |i: int| (self.entries@[i].0@, self.entries@[i].1))
    }
}

/// The keys of the entry list are pairwise distinct.
pub open spec fn wf_entries(es: Seq<(Seq<char>, bool)>) -> bool {
    forall|i: int, j: int| 0 <= i < j < es.len() ==> es[i].0 != es[j].0
}

/// Some entry records this key.
pub open spec fn has_key(es: Seq<(Seq<char>, bool)>, k: Seq<char>) -> bool {
    exists|i: int| 0 <= i < es.len() && es[i].0 == k
}

/// The index of the entry recording this key (unique when the keys are
/// distinct).
pub open spec fn entry_index(es: Seq<(Seq<char>, bool)>, k: Seq<char>) -> int {
    choose|i: int| 0 <= i < es.len() && es[i].0 == k
}

/// The recorded predicate result for this key.
pub open spec fn entry_value(es: Seq<(Seq<char>, bool)>, k: Seq<char>) -> bool {
    es[entry_index(es, k)].1
}

/// The keys recorded with this predicate result, in entry order.
pub open spec fn keys_with(es: Seq<(Seq<char>, bool)>, v: bool) -> Seq<Seq<char>>
    decreases es.len(),
{
    if es.len() == 0 {
        Seq::empty()
    } else {
        let r = keys_with(es.drop_last(), v);
        if es.last().1 == v {
            r.push(es.last().0)
        } else {
            r
        }
    }
}

impl ConditionMap {
    /// An empty condition map.
    pub fn new() -> (r: ConditionMap)
        ensures
            r@ =~= Seq::<(Seq<char>, bool)>::empty(),
            wf_entries(r@),
    {
        ConditionMap { entries: Vec::new() }
    }

    /// Records the predicate result for one chunk id not recorded yet.
    pub fn insert(&mut self, id: &str, v: bool)
        requires
            !has_key(old(self)@, id@),
        ensures
            final(self)@ =~= old(self)@.push((id@, v)),
            wf_entries(old(self)@) ==> wf_entries(final(self)@),
    {
        let key = String::from_str(id);
        self.entries.push((key, v));
        proof {
            let oldv = old(self)@;
            let newv = final(self)@;
            assert(newv =~= oldv.push((id@, v)));
            if wf_entries(oldv) {
                assert forall|i: int, j: int| 0 <= i < j < newv.len() implies newv[i].0
                    != newv[j].0 by {
                    if j == newv.len() - 1 {
                        assert(!has_key(oldv, id@));
                        assert(newv[i] == oldv[i]);
                    }
                }
            }
        }
    }

    /// Whether this chunk id is recorded.
    pub fn contains_key(&self, id: &String) -> (r: bool)
        ensures
            r == has_key(self@, id@),
    {
        let mut i: usize = 0;
        while i < self.entries.len()
            invariant
                i <= self.entries.len(),
                self@.len() == self.entries@.len(),
                forall|j: int| 0 <= j < i ==> self@[j].0 != id@,
            decreases self.entries.len() - i,
        {
            if self.entries[i].0.eq(id) {
                proof {
                    assert(self@[i as int].0 == id@);
                }
                return true;
            }
            i += 1;
        }
        false
    }

    /// How many chunk ids are recorded.
    pub fn len(&self) -> (r: usize)
        ensures
            r == self@.len(),
    {
        self.entries.len()
    }
}

/// A compiled matcher: a constant verdict, or a concrete boolean
/// expression over the runtime chunk-id variable.
pub enum Matcher {
    AlwaysTrue,
    AlwaysFalse,
    Expr(MatchExpr),
}

/// A concrete matcher expression: the enumerated group of chunk ids, the
/// polarity (`positive` when membership in the group means the predicate
/// holds), and the rendering form (`membership` for an array-membership
/// test, otherwise a chain of comparisons).
pub struct MatchExpr {
    pub ids: Vec<String>,
    pub positive: bool,
    pub membership: bool,
}

/// The mathematical shape of a compiled matcher.
pub enum MatcherModel {
    AlwaysTrue,
    AlwaysFalse,
    Expr { ids: Seq<Seq<char>>, positive: bool, membership: bool },
}

impl View for MatchExpr {
    type V = MatcherModel;

    open spec fn view(&self) -> MatcherModel {
        MatcherModel::Expr {
            ids: self.ids.deep_view(),
            positive: self.positive,
            membership: self.membership,
        }
    }
}

impl View for Matcher {
    type V = MatcherModel;

    open spec fn view(&self) -> MatcherModel {
        match self {
            Matcher::AlwaysTrue => MatcherModel::AlwaysTrue,
            Matcher::AlwaysFalse => MatcherModel::AlwaysFalse,
            Matcher::Expr(e) => e@,
        }
    }
}

/// Some enumerated id equals this key.
pub open spec fn contains_id(ids: Seq<Seq<char>>, k: Seq<char>) -> bool {
    exists|i: int| 0 <= i < ids.len() && ids[i] == k
}

/// What a compiled matcher decides for a chunk id: a constant verdict, or
/// membership in the enumerated group compared against the polarity. An id
/// the condition map never recorded carries no recorded result; the
/// matcher is specified over recorded ids only.
pub open spec fn eval(m: MatcherModel, k: Seq<char>) -> bool {
    match m {
        MatcherModel::AlwaysTrue => true,
        MatcherModel::AlwaysFalse => false,
        MatcherModel::Expr { ids, positive, membership } => contains_id(ids, k) == positive,
    }
}

/// The matcher that `compile` produces for an entry list: the constant
/// form when every recorded result agrees (an empty map compiles to
/// the constant-false form), otherwise the expression enumerating the
/// smaller group, preferring the true group on a tie.
pub open spec fn spec_compile(es: Seq<(Seq<char>, bool)>) -> MatcherModel {
    let trues = keys_with(es, true);
    let falses = keys_with(es, false);
    if trues.len() == 0 {
        MatcherModel::AlwaysFalse
    } else if falses.len() == 0 {
        MatcherModel::AlwaysTrue
    } else {
        let positive = trues.len() <= falses.len();
        let ids = if positive {
            trues
        } else {
            falses
        };
        MatcherModel::Expr { ids, positive, membership: ids.len() > EQ_CHAIN_MAX as int }
    }
}

/// Compiles the condition map to the minimal matcher: constant when the
/// map is constant, otherwise an expression enumerating the smaller of
/// the true group and the false group.
pub fn compile(m: &ConditionMap) -> (r: Matcher)
    ensures
        r@ == spec_compile(m@),
{
    let mut trues: Vec<String> = Vec::new();
    let mut falses: Vec<String> = Vec::new();
    let mut i: usize = 0;
    while i < m.entries.len()
        invariant
            i <= m.entries.len(),
            m@.len() == m.entries@.len(),
            trues.deep_view() == keys_with(m@.take(i as int), true),
            falses.deep_view() == keys_with(m@.take(i as int), false),
        decreases m.entries.len() - i,
    {
        let ghost old_trues = trues.deep_view();
        let ghost old_falses = falses.deep_view();
        let id = m.entries[i].0.clone();
        if m.entries[i].1 {
            trues.push(id);
        } else {
            falses.push(id);
        }
        proof {
            assert(m@.take(i + 1).drop_last() =~= m@.take(i as int));
            assert(m@.take(i + 1).last() == m@[i as int]);
            if m@[i as int].1 {
                assert(trues.deep_view() =~= old_trues.push(m@[i as int].0));
            } else {
                assert(falses.deep_view() =~= old_falses.push(m@[i as int].0));
            }
        }
        i += 1;
    }
    proof {
        assert(m@.take(m.entries@.len() as int) =~= m@);
    }
    if trues.len() == 0 {
        Matcher::AlwaysFalse
    } else if falses.len() == 0 {
        Matcher::AlwaysTrue
    } else if trues.len() <= falses.len() {
        let membership = trues.len() > EQ_CHAIN_MAX;
        Matcher::Expr(MatchExpr { ids: trues, positive: true, membership })
    } else {
        let membership = falses.len() > EQ_CHAIN_MAX;
        Matcher::Expr(MatchExpr { ids: falses, positive: false, membership })
    }
}

/// Decides, for a concrete chunk id, what the compiled matcher decides.
pub fn evaluate(m: &Matcher, id: &String) -> (r: bool)
    ensures
        r == eval(m@, id@),
{
    match m {
        Matcher::AlwaysTrue => true,
        Matcher::AlwaysFalse => false,
        Matcher::Expr(e) => {
            let mut i: usize = 0;
            let mut found = false;
            while i < e.ids.len()
                invariant
                    i <= e.ids.len(),
                    e.ids.deep_view().len() == e.ids@.len(),
                    found == exists|j: int| 0 <= j < i && e.ids.deep_view()[j] == id@,
                decreases e.ids.len() - i,
            {
                if e.ids[i].eq(id) {
                    proof {
                        assert(e.ids.deep_view()[i as int] == id@);
                    }
                    found = true;
                }
                i += 1;
            }
            proof {
                assert(found == contains_id(e.ids.deep_view(), id@));
            }
            found == e.positive
        },
    }
}

/// One comparison of the runtime variable against a quoted chunk id.
pub open spec fn eq_item(var: Seq<char>, id: Seq<char>, positive: bool) -> Seq<char> {
    if positive {
        var + " === "@ + json_string_of(id)
    } else {
        var + " !== "@ + json_string_of(id)
    }
}

/// The comparison of each enumerated id, in order.
pub open spec fn eq_items(var: Seq<char>, ids: Seq<Seq<char>>, positive: bool) -> Seq<Seq<char>> {
    Seq::new(ids.len(), |i: int| eq_item(var, ids[i], positive))
}

/// Each enumerated id as a quoted literal, in order.
pub open spec fn quoted_ids(ids: Seq<Seq<char>>) -> Seq<Seq<char>> {
    Seq::new(ids.len(), |i: int| json_string_of(ids[i]))
}

/// The source text a matcher renders to: a constant, a parenthesized
/// chain of comparisons joined with the operator matching the polarity,
/// or a (possibly negated) array-membership test.
pub open spec fn spec_render(m: MatcherModel, var: Seq<char>) -> Seq<char> {
    match m {
        MatcherModel::AlwaysTrue => "true"@,
        MatcherModel::AlwaysFalse => "false"@,
        MatcherModel::Expr { ids, positive, membership } => if membership {
            let open = if positive {
                "(["@
            } else {
                "(!["@
            };
            open + join_from(quoted_ids(ids), ","@) + "].includes("@ + var + "))"@
        } else {
            let sep = if positive {
                " || "@
            } else {
                " && "@
            };
            "("@ + join_from(eq_items(var, ids, positive), sep) + ")"@
        },
    }
}

/// Renders the matcher as a boolean-valued source expression over the
/// given runtime variable name.
pub fn render(m: &Matcher, var_name: &str) -> (r: String)
    ensures
        r@ == spec_render(m@, var_name@),
{
    match m {
        Matcher::AlwaysTrue => String::from_str("true"),
        Matcher::AlwaysFalse => String::from_str("false"),
        Matcher::Expr(e) => {
            let ghost idsv = e.ids.deep_view();
            let mut parts: Vec<String> = Vec::new();
            let mut i: usize = 0;
            if e.membership {
                while i < e.ids.len()
                    invariant
                        i <= e.ids.len(),
                        idsv == e.ids.deep_view(),
                        idsv.len() == e.ids@.len(),
                        parts.deep_view() == quoted_ids(idsv.take(i as int)),
                    decreases e.ids.len() - i,
                {
                    let ghost old_parts = parts.deep_view();
                    parts.push(json_quote(e.ids[i].as_str()));
                    proof {
                        assert(parts.deep_view() =~= old_parts.push(json_string_of(
                            idsv[i as int],
                        )));
                        assert(quoted_ids(idsv.take(i + 1)) =~= quoted_ids(
                            idsv.take(i as int),
                        ).push(json_string_of(idsv[i as int])));
                    }
                    i += 1;
                }
                proof {
                    assert(idsv.take(idsv.len() as int) =~= idsv);
                }
                let mut r = if e.positive {
                    String::from_str("([")
                } else {
                    String::from_str("(![")
                };
                let joined = join_with(&parts, ",");
                r.append(joined.as_str());
                r.append("].includes(");
                r.append(var_name);
                r.append("))");
                r
            } else {
                while i < e.ids.len()
                    invariant
                        i <= e.ids.len(),
                        idsv == e.ids.deep_view(),
                        idsv.len() == e.ids@.len(),
                        parts.deep_view() == eq_items(var_name@, idsv.take(i as int), e.positive),
                    decreases e.ids.len() - i,
                {
                    let ghost old_parts = parts.deep_view();
                    let mut item = String::from_str(var_name);
                    if e.positive {
                        item.append(" === ");
                    } else {
                        item.append(" !== ");
                    }
                    let quoted = json_quote(e.ids[i].as_str());
                    item.append(quoted.as_str());
                    parts.push(item);
                    proof {
                        assert(parts.deep_view() =~= old_parts.push(eq_item(
                            var_name@,
                            idsv[i as int],
                            e.positive,
                        )));
                        assert(eq_items(var_name@, idsv.take(i + 1), e.positive) =~= eq_items(
                            var_name@,
                            idsv.take(i as int),
                            e.positive,
                        ).push(eq_item(var_name@, idsv[i as int], e.positive)));
                    }
                    i += 1;
                }
                proof {
                    assert(idsv.take(idsv.len() as int) =~= idsv);
                }
                let mut r = String::from_str("(");
                let joined = if e.positive {
                    join_with(&parts, " || ")
                } else {
                    join_with(&parts, " && ")
                };
                r.append(joined.as_str());
                r.append(")");
                r
            }
        },
    }
}

/// A key appears in the group for `v` exactly when some entry records it
/// with result `v`.
pub proof fn lemma_keys_with_membership(es: Seq<(Seq<char>, bool)>, v: bool, k: Seq<char>)
    ensures
        contains_id(keys_with(es, v), k) <==> exists|i: int|
            0 <= i < es.len() && es[i] == (k, v),
    decreases es.len(),
{
    if es.len() == 0 {
    } else {
        lemma_keys_with_membership(es.drop_last(), v, k);
        let r = keys_with(es.drop_last(), v);
        let w = keys_with(es, v);
        if es.last().1 == v {
            assert(w == r.push(es.last().0));
            if contains_id(w, k) {
                let i = choose|i: int| 0 <= i < w.len() && w[i] == k;
                if i < r.len() {
                    assert(contains_id(r, k));
                    let j = choose|j: int| 0 <= j < es.len() - 1 && es.drop_last()[j] == (k, v);
                    assert(es[j] == (k, v));
                } else {
                    assert(es.last() == (k, v));
                    assert(es[es.len() - 1] == (k, v));
                }
            }
            if exists|i: int| 0 <= i < es.len() && es[i] == (k, v) {
                let i = choose|i: int| 0 <= i < es.len() && es[i] == (k, v);
                if i < es.len() - 1 {
                    assert(es.drop_last()[i] == (k, v));
                    let j = choose|j: int| 0 <= j < r.len() && r[j] == k;
                    assert(w[j] == k);
                } else {
                    assert(w[w.len() - 1] == k);
                }
            }
        } else {
            assert(w == r);
            if exists|i: int| 0 <= i < es.len() && es[i] == (k, v) {
                let i = choose|i: int| 0 <= i < es.len() && es[i] == (k, v);
                assert(i < es.len() - 1);
                assert(es.drop_last()[i] == (k, v));
            }
            if contains_id(r, k) {
                let j = choose|j: int| 0 <= j < es.len() - 1 && es.drop_last()[j] == (k, v);
                assert(es[j] == (k, v));
            }
        }
    }
}

/// Matcher soundness: over a condition map with distinct keys, the
/// compiled matcher reproduces the recorded result of every recorded
/// chunk id.
pub proof fn lemma_matcher_sound(es: Seq<(Seq<char>, bool)>, k: Seq<char>)
    requires
        wf_entries(es),
        has_key(es, k),
    ensures
        eval(spec_compile(es), k) == entry_value(es, k),
{
    let idx = entry_index(es, k);
    let v = entry_value(es, k);
    assert(0 <= idx < es.len() && es[idx].0 == k);
    assert(es[idx] == (k, v));
    lemma_keys_with_membership(es, v, k);
    lemma_keys_with_membership(es, !v, k);
    assert(contains_id(keys_with(es, v), k));
    if exists|i: int| 0 <= i < es.len() && es[i] == (k, !v) {
        let j = choose|i: int| 0 <= i < es.len() && es[i] == (k, !v);
        assert(j != idx);
        assert(es[j].0 == es[idx].0);
        assert(false);
    }
    assert(!contains_id(keys_with(es, !v), k));
    let trues = keys_with(es, true);
    let falses = keys_with(es, false);
    if trues.len() == 0 {
        assert(!contains_id(trues, k));
        assert(v == false);
    } else if falses.len() == 0 {
        assert(!contains_id(falses, k));
        assert(v == true);
    } else {
        if trues.len() <= falses.len() {
            assert(contains_id(trues, k) == v);
        } else {
            assert(contains_id(falses, k) == !v);
        }
    }
}

/// Minimality tie-break: an all-true map compiles to the constant-true
/// form, an all-false or empty map to the constant-false form, and a
/// mixed map to the expression enumerating the strictly smaller group,
/// with the true group preferred on a tie.
pub proof fn lemma_matcher_tie_break(es: Seq<(Seq<char>, bool)>)
    ensures
        keys_with(es, true).len() == 0 ==> spec_compile(es) == MatcherModel::AlwaysFalse,
        keys_with(es, true).len() > 0 && keys_with(es, false).len() == 0 ==> spec_compile(es)
            == MatcherModel::AlwaysTrue,
        keys_with(es, true).len() > 0 && keys_with(es, false).len() > 0 ==> (spec_compile(es)
            matches MatcherModel::Expr { ids, positive, membership } && positive == (keys_with(
            es,
            true,
        ).len() <= keys_with(es, false).len()) && ids == (if positive {
            keys_with(es, true)
        } else {
            keys_with(es, false)
        }) && membership == (ids.len() > EQ_CHAIN_MAX as int)),
{
}

} // verus!
