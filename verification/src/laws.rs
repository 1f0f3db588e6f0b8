//! The shadowing laws: what the five-tier resolution rule guarantees, proved
//! once and for all over `resolve_model`, the same model every resolving
//! function's contract is stated against.

use vstd::prelude::*;
use crate::ast::{Path, Span};
use crate::names::{DefId, ErrorV, PackageId, PackageSrc};
use crate::resolve::{
    best_two, open_cands, prelude_hit, qualifier, resolve_model, span_lt, stack_lookup,
};
use crate::tables::{global_lookup, OpenV};

verus! {

/// No open in force under `alias` defines `name`.
pub open spec fn no_open_hit(
    globals: Seq<(String, String, DefId)>,
    opens: Seq<OpenV>,
    alias: Seq<char>,
    name: Seq<char>,
) -> bool {
    forall|i: int|
        0 <= i < opens.len() && opens[i].alias == alias ==> global_lookup(
            globals,
            opens[i].ns,
            name,
        ) is None
}

/// Every open in force under `alias` that defines `name` defines it as `id`.
pub open spec fn all_open_hits_are(
    globals: Seq<(String, String, DefId)>,
    opens: Seq<OpenV>,
    alias: Seq<char>,
    name: Seq<char>,
    id: DefId,
) -> bool {
    forall|i: int|
        0 <= i < opens.len() && opens[i].alias == alias && global_lookup(
            globals,
            opens[i].ns,
            name,
        ) is Some ==> global_lookup(globals, opens[i].ns, name) == Some(id)
}

/// Some open in force under `alias` defines `name`.
pub open spec fn some_open_hit(
    globals: Seq<(String, String, DefId)>,
    opens: Seq<OpenV>,
    alias: Seq<char>,
    name: Seq<char>,
) -> bool {
    exists|i: int|
        0 <= i < opens.len() && opens[i].alias == alias && global_lookup(
            globals,
            opens[i].ns,
            name,
        ) is Some
}

/// Where no open in force defines the name, the explicit-open tier gathers
/// no candidate at all.
pub proof fn lemma_no_hit_no_cands(
    globals: Seq<(String, String, DefId)>,
    opens: Seq<OpenV>,
    alias: Seq<char>,
    name: Seq<char>,
)
    requires
        no_open_hit(globals, opens, alias, name),
    ensures
        open_cands(globals, opens, alias, name) == Seq::<(DefId, Span)>::empty(),
    decreases opens.len(),
{
    if opens.len() > 0 {
        lemma_no_hit_no_cands(globals, opens.drop_last(), alias, name);
    }
}

/// Where every open hit agrees on one definition, the explicit-open tier
/// gathers at most that one candidate — and exactly it, when some open
/// defines the name at all.
pub proof fn lemma_agreeing_hits_single(
    globals: Seq<(String, String, DefId)>,
    opens: Seq<OpenV>,
    alias: Seq<char>,
    name: Seq<char>,
    id: DefId,
)
    requires
        all_open_hits_are(globals, opens, alias, name, id),
    ensures
        open_cands(globals, opens, alias, name).len() <= 1,
        open_cands(globals, opens, alias, name).len() == 1 ==> open_cands(
            globals,
            opens,
            alias,
            name,
        )[0].0 == id,
        some_open_hit(globals, opens, alias, name) <==> open_cands(
            globals,
            opens,
            alias,
            name,
        ).len() == 1,
    decreases opens.len(),
{
    if opens.len() > 0 {
        assert(all_open_hits_are(globals, opens.drop_last(), alias, name, id));
        lemma_agreeing_hits_single(globals, opens.drop_last(), alias, name, id);
        let e = opens.last();
        if e.alias == alias && global_lookup(globals, e.ns, name) is Some {
            assert(some_open_hit(globals, opens, alias, name)) by {
                assert(opens[opens.len() - 1] == e);
            }
        }
        if some_open_hit(globals, opens, alias, name) {
            let i = choose|i: int|
                0 <= i < opens.len() && opens[i].alias == alias && global_lookup(
                    globals,
                    opens[i].ns,
                    name,
                ) is Some;
            if i < opens.len() - 1 {
                assert(opens.drop_last()[i] == opens[i]);
                assert(some_open_hit(globals, opens.drop_last(), alias, name));
            }
        }
    }
}

/// Local shadowing: a name bound by an enclosing binding wins over
/// everything else, however many namespace items or opens also carry it.
pub proof fn law_local_shadowing(
    globals: Seq<(String, String, DefId)>,
    opens: Seq<OpenV>,
    parent: Seq<char>,
    locals: Seq<Seq<(String, DefId)>>,
    path: Path,
    id: DefId,
)
    requires
        qualifier(path).len() == 0,
        stack_lookup(locals, path.name.name@) == Some(id),
    ensures
        resolve_model(globals, opens, parent, locals, path) == Ok::<DefId, ErrorV>(id),
{
}

/// Own-namespace priority: with no local in scope, an item declared in the
/// enclosing namespace shadows anything brought in by opens.
pub proof fn law_own_namespace_priority(
    globals: Seq<(String, String, DefId)>,
    opens: Seq<OpenV>,
    parent: Seq<char>,
    locals: Seq<Seq<(String, DefId)>>,
    path: Path,
    id: DefId,
)
    requires
        qualifier(path).len() == 0,
        stack_lookup(locals, path.name.name@) is None,
        global_lookup(globals, parent, path.name.name@) == Some(id),
    ensures
        resolve_model(globals, opens, parent, locals, path) == Ok::<DefId, ErrorV>(id),
{
}

/// Open unambiguity collapses duplicates: when every open that reaches the
/// name reaches the identical definition, resolution succeeds with it — no
/// matter how many opens independently introduced it.
pub proof fn law_open_unambiguity(
    globals: Seq<(String, String, DefId)>,
    opens: Seq<OpenV>,
    parent: Seq<char>,
    locals: Seq<Seq<(String, DefId)>>,
    path: Path,
    id: DefId,
)
    requires
        qualifier(path).len() == 0,
        stack_lookup(locals, path.name.name@) is None,
        global_lookup(globals, parent, path.name.name@) is None,
        some_open_hit(globals, opens, Seq::empty(), path.name.name@),
        all_open_hits_are(globals, opens, Seq::empty(), path.name.name@, id),
    ensures
        resolve_model(globals, opens, parent, locals, path) == Ok::<DefId, ErrorV>(id),
{
    assert(qualifier(path) =~= Seq::<char>::empty());
    lemma_agreeing_hits_single(globals, opens, Seq::empty(), path.name.name@, id);
}

/// Genuine ambiguity: two opens reaching two distinct definitions of the
/// name yield exactly one `Ambiguous` error carrying the occurrence's span
/// and the two opening directives' spans in source order.
pub proof fn law_genuine_ambiguity(
    globals: Seq<(String, String, DefId)>,
    opens: Seq<OpenV>,
    parent: Seq<char>,
    locals: Seq<Seq<(String, DefId)>>,
    path: Path,
    id1: DefId,
    id2: DefId,
)
    requires
        qualifier(path).len() == 0,
        stack_lookup(locals, path.name.name@) is None,
        global_lookup(globals, parent, path.name.name@) is None,
        opens.len() == 2,
        opens[0].alias == Seq::<char>::empty(),
        opens[1].alias == Seq::<char>::empty(),
        global_lookup(globals, opens[0].ns, path.name.name@) == Some(id1),
        global_lookup(globals, opens[1].ns, path.name.name@) == Some(id2),
        id1 != id2,
        span_lt(opens[0].span, opens[1].span),
    ensures
        resolve_model(globals, opens, parent, locals, path) == Err::<DefId, ErrorV>(
            ErrorV::Ambiguous(path.name.name@, path.span, opens[0].span, opens[1].span),
        ),
{
    let name = path.name.name@;
    let alias = Seq::<char>::empty();
    assert(qualifier(path) =~= alias);
    assert(opens.drop_last().drop_last() =~= Seq::<OpenV>::empty());
    assert(opens.drop_last().last() == opens[0]);
    assert(opens.last() == opens[1]);
    let zero = open_cands(globals, opens.drop_last().drop_last(), alias, name);
    assert(zero =~= Seq::<(DefId, Span)>::empty());
    assert(!crate::resolve::cands_have(zero, id1));
    let one = open_cands(globals, opens.drop_last(), alias, name);
    assert(opens.drop_last().len() == 1);
    assert(one == zero.push((id1, opens[0].span)));
    assert(one =~= seq![(id1, opens[0].span)]);
    let two = open_cands(globals, opens, alias, name);
    assert(!crate::resolve::cands_have(one, id2));
    assert(two =~= seq![(id1, opens[0].span), (id2, opens[1].span)]);
}

/// The reported pair really is the two earliest candidate spans, in
/// increasing order: the first is no later than any candidate, no two
/// distinct candidates lie strictly before the second, and both are spans of
/// candidates (of two different ones).
pub proof fn lemma_best_two_earliest(cands: Seq<(DefId, Span)>)
    requires
        cands.len() >= 2,
    ensures
        !span_lt(best_two(cands).1, best_two(cands).0),
        forall|i: int| 0 <= i < cands.len() ==> !span_lt(cands[i].1, best_two(cands).0),
        forall|i: int, j: int|
            0 <= i < cands.len() && 0 <= j < cands.len() && i != j ==> !(span_lt(
                cands[i].1,
                best_two(cands).1,
            ) && span_lt(cands[j].1, best_two(cands).1)),
        exists|i: int, j: int|
            0 <= i < cands.len() && 0 <= j < cands.len() && i != j && cands[i].1 == best_two(
                cands,
            ).0 && cands[j].1 == best_two(cands).1,
    decreases cands.len(),
{
    let p = best_two(cands);
    if cands.len() == 2 {
        if span_lt(cands[1].1, cands[0].1) {
            assert(cands[1].1 == p.0 && cands[0].1 == p.1);
        } else {
            assert(cands[0].1 == p.0 && cands[1].1 == p.1);
        }
    } else {
        let head = cands.drop_last();
        lemma_best_two_earliest(head);
        let q = best_two(head);
        let x = cands.last().1;
        let last = cands.len() - 1;
        assert(forall|i: int| 0 <= i < last ==> cands[i] == head[i]);
        let (hi, hj) = choose|i: int, j: int|
            0 <= i < head.len() && 0 <= j < head.len() && i != j && head[i].1 == q.0 && head[j].1
                == q.1;
        if span_lt(x, q.0) {
            // The new span becomes the earliest; the old earliest is second.
            assert(p == (x, q.0));
            assert(forall|i: int| 0 <= i < cands.len() ==> !span_lt(cands[i].1, p.0));
            assert(cands[last].1 == p.0 && cands[hi].1 == p.1 && last != hi);
        } else if span_lt(x, q.1) {
            // The new span slots in as second.
            assert(p == (q.0, x));
            assert forall|i: int, j: int|
                0 <= i < cands.len() && 0 <= j < cands.len() && i != j implies !(span_lt(
                cands[i].1,
                p.1,
            ) && span_lt(cands[j].1, p.1)) by {
                if span_lt(cands[i].1, p.1) && span_lt(cands[j].1, p.1) {
                    assert(i != last || j != last);
                    assert(i < last ==> span_lt(cands[i].1, q.1));
                    assert(j < last ==> span_lt(cands[j].1, q.1));
                }
            }
            assert(cands[hi].1 == p.0 && cands[last].1 == p.1 && hi != last);
        } else {
            // The new span changes nothing.
            assert(p == q);
            assert(cands[hi].1 == p.0 && cands[hj].1 == p.1 && hi != hj);
        }
    }
}

/// Genuine ambiguity in general: however many opens conflict, the error
/// cites the two earliest conflicting directives, in increasing span order.
pub proof fn law_ambiguity_cites_earliest(
    globals: Seq<(String, String, DefId)>,
    opens: Seq<OpenV>,
    parent: Seq<char>,
    locals: Seq<Seq<(String, DefId)>>,
    path: Path,
)
    requires
        qualifier(path).len() == 0,
        stack_lookup(locals, path.name.name@) is None,
        global_lookup(globals, parent, path.name.name@) is None,
        open_cands(globals, opens, qualifier(path), path.name.name@).len() >= 2,
    ensures
        ({
            let cands = open_cands(globals, opens, qualifier(path), path.name.name@);
            let spans = best_two(cands);
            &&& resolve_model(globals, opens, parent, locals, path) == Err::<DefId, ErrorV>(
                ErrorV::Ambiguous(path.name.name@, path.span, spans.0, spans.1),
            )
            &&& !span_lt(spans.1, spans.0)
            &&& forall|i: int| 0 <= i < cands.len() ==> !span_lt(cands[i].1, spans.0)
            &&& forall|i: int, j: int|
                0 <= i < cands.len() && 0 <= j < cands.len() && i != j ==> !(span_lt(
                    cands[i].1,
                    spans.1,
                ) && span_lt(cands[j].1, spans.1))
        }),
{
    lemma_best_two_earliest(open_cands(globals, opens, qualifier(path), path.name.name@));
}

/// Prelude fallback: a name that locals, the enclosing namespace and the
/// opens all miss, and that a prelude namespace defines, resolves to that
/// prelude definition.
pub proof fn law_prelude_fallback(
    globals: Seq<(String, String, DefId)>,
    opens: Seq<OpenV>,
    parent: Seq<char>,
    locals: Seq<Seq<(String, DefId)>>,
    path: Path,
    id: DefId,
)
    requires
        qualifier(path).len() == 0,
        stack_lookup(locals, path.name.name@) is None,
        global_lookup(globals, parent, path.name.name@) is None,
        no_open_hit(globals, opens, Seq::empty(), path.name.name@),
        prelude_hit(globals, path.name.name@) == Some(id),
    ensures
        resolve_model(globals, opens, parent, locals, path) == Ok::<DefId, ErrorV>(id),
{
    assert(qualifier(path) =~= Seq::<char>::empty());
    lemma_no_hit_no_cands(globals, opens, Seq::empty(), path.name.name@);
}

/// Unopened-global fallback: a qualified path that no open's alias matches
/// resolves directly against the global table, with no `open` needed for
/// its namespace.
pub proof fn law_unopened_global_fallback(
    globals: Seq<(String, String, DefId)>,
    opens: Seq<OpenV>,
    parent: Seq<char>,
    locals: Seq<Seq<(String, DefId)>>,
    path: Path,
    id: DefId,
)
    requires
        qualifier(path).len() > 0,
        no_open_hit(globals, opens, qualifier(path), path.name.name@),
        global_lookup(globals, qualifier(path), path.name.name@) == Some(id),
    ensures
        resolve_model(globals, opens, parent, locals, path) == Ok::<DefId, ErrorV>(id),
{
    lemma_no_hit_no_cands(globals, opens, qualifier(path), path.name.name@);
}

/// Not-found: when no tier produces a candidate, resolution yields exactly
/// the `NotFound` error, citing the occurrence's own name and span.
pub proof fn law_not_found(
    globals: Seq<(String, String, DefId)>,
    opens: Seq<OpenV>,
    parent: Seq<char>,
    locals: Seq<Seq<(String, DefId)>>,
    path: Path,
)
    requires
        qualifier(path).len() == 0,
        stack_lookup(locals, path.name.name@) is None,
        global_lookup(globals, parent, path.name.name@) is None,
        no_open_hit(globals, opens, Seq::empty(), path.name.name@),
        prelude_hit(globals, path.name.name@) is None,
        global_lookup(globals, Seq::empty(), path.name.name@) is None,
    ensures
        resolve_model(globals, opens, parent, locals, path) == Err::<DefId, ErrorV>(
            ErrorV::NotFound(path.name.name@, path.span),
        ),
{
    assert(qualifier(path) =~= Seq::<char>::empty());
    lemma_no_hit_no_cands(globals, opens, Seq::empty(), path.name.name@);
}

/// Cross-package identity: two definition identities are the same exactly
/// when both the origin and the declaring node agree — so a local item and
/// an externally linked item never collide, even on an equal node id.
pub proof fn law_cross_package_identity(a: DefId, b: DefId, node: u32, pkg: PackageId)
    ensures
        (a == b) <==> (a.package == b.package && a.node == b.node),
        (DefId { package: PackageSrc::Local, node }) != (DefId {
            package: PackageSrc::Extern(pkg),
            node,
        }),
{
}

} // verus!
