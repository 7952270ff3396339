//! What holds of the order in which modules are put together.

use crate::modules::{assembly_order, lemma_pass_lengths, pass, ready, JsModuleV};
use vstd::prelude::*;

verus! {

/// The names of the modules that stand before the place `p` in `order`.
pub open spec fn earlier(order: Seq<JsModuleV>, p: int) -> Set<Seq<char>> {
    Set::new(|name: Seq<char>| exists|q: int| 0 <= q < p && q < order.len() && order[q].name == name)
}

/// Every module of `order` stands behind all it depends on, where the names
/// `satisfied` are loaded before any module is.
pub open spec fn follows_dependencies(order: Seq<JsModuleV>, satisfied: Set<Seq<char>>) -> bool {
    forall|p: int|
        0 <= p < order.len() ==> ready(#[trigger] order[p], satisfied.union(earlier(order, p)))
}

proof fn lemma_ready_grows(m: JsModuleV, small: Set<Seq<char>>, large: Set<Seq<char>>)
    requires
        ready(m, small),
        small.subset_of(large),
    ensures
        ready(m, large),
{
}

proof fn lemma_pass_sound(rest: Seq<JsModuleV>, satisfied: Set<Seq<char>>)
    ensures
        follows_dependencies(pass(rest, satisfied).emitted, satisfied),
        pass(rest, satisfied).satisfied == satisfied.union(
            earlier(
                pass(rest, satisfied).emitted,
                pass(rest, satisfied).emitted.len() as int,
            ),
        ),
    decreases rest.len(),
{
    let p = pass(rest, satisfied);
    if rest.len() == 0 {
        assert(p.satisfied =~= satisfied.union(earlier(p.emitted, 0)));
    } else if ready(rest[0], satisfied) {
        let first = rest[0];
        let inner = satisfied.insert(first.name);
        let after = pass(rest.drop_first(), inner);
        lemma_pass_sound(rest.drop_first(), inner);
        assert(p.emitted == seq![first] + after.emitted);
        assert forall|q: int| 0 <= q < p.emitted.len() implies ready(
            #[trigger] p.emitted[q],
            satisfied.union(earlier(p.emitted, q)),
        ) by {
            if q == 0 {
                lemma_ready_grows(first, satisfied, satisfied.union(earlier(p.emitted, 0)));
            } else {
                assert(p.emitted[q] == after.emitted[q - 1]);
                let small = inner.union(earlier(after.emitted, q - 1));
                let large = satisfied.union(earlier(p.emitted, q));
                assert forall|n: Seq<char>| small.contains(n) implies large.contains(n) by {
                    if n == first.name {
                        assert(p.emitted[0].name == n);
                    } else if earlier(after.emitted, q - 1).contains(n) {
                        let w = choose|w: int|
                            0 <= w < q - 1 && w < after.emitted.len() && after.emitted[w].name
                                == n;
                        assert(p.emitted[w + 1].name == n);
                    }
                }
                lemma_ready_grows(after.emitted[q - 1], small, large);
            }
        }
        assert(p.satisfied =~= satisfied.union(earlier(p.emitted, p.emitted.len() as int))) by {
            let left = inner.union(earlier(after.emitted, after.emitted.len() as int));
            let right = satisfied.union(earlier(p.emitted, p.emitted.len() as int));
            assert forall|n: Seq<char>| left.contains(n) == right.contains(n) by {
                if n == first.name {
                    assert(p.emitted[0].name == n);
                }
                if earlier(after.emitted, after.emitted.len() as int).contains(n) {
                    let w = choose|w: int|
                        0 <= w < after.emitted.len() && w < after.emitted.len()
                            && after.emitted[w].name == n;
                    assert(p.emitted[w + 1].name == n);
                }
                if earlier(p.emitted, p.emitted.len() as int).contains(n) {
                    let w = choose|w: int|
                        0 <= w < p.emitted.len() && w < p.emitted.len() && p.emitted[w].name == n;
                    if w > 0 {
                        assert(after.emitted[w - 1].name == n);
                    }
                }
            }
        }
    } else {
        lemma_pass_sound(rest.drop_first(), satisfied);
    }
}

proof fn lemma_follows_joined(a: Seq<JsModuleV>, b: Seq<JsModuleV>, satisfied: Set<Seq<char>>)
    requires
        follows_dependencies(a, satisfied),
        follows_dependencies(b, satisfied.union(earlier(a, a.len() as int))),
    ensures
        follows_dependencies(a + b, satisfied),
{
    let all = a + b;
    assert forall|p: int| 0 <= p < all.len() implies ready(
        #[trigger] all[p],
        satisfied.union(earlier(all, p)),
    ) by {
        if p < a.len() {
            assert(all[p] == a[p]);
            let small = satisfied.union(earlier(a, p));
            let large = satisfied.union(earlier(all, p));
            assert forall|n: Seq<char>| small.contains(n) implies large.contains(n) by {
                if earlier(a, p).contains(n) {
                    let w = choose|w: int| 0 <= w < p && w < a.len() && a[w].name == n;
                    assert(all[w].name == n);
                }
            }
            lemma_ready_grows(a[p], small, large);
        } else {
            let at = p - a.len();
            assert(all[p] == b[at]);
            let small = satisfied.union(earlier(a, a.len() as int)).union(earlier(b, at));
            let large = satisfied.union(earlier(all, p));
            assert forall|n: Seq<char>| small.contains(n) implies large.contains(n) by {
                if earlier(a, a.len() as int).contains(n) {
                    let w = choose|w: int| 0 <= w < a.len() && w < a.len() && a[w].name == n;
                    assert(all[w].name == n);
                } else if earlier(b, at).contains(n) {
                    let w = choose|w: int| 0 <= w < at && w < b.len() && b[w].name == n;
                    assert(all[w + a.len()].name == n);
                }
            }
            lemma_ready_grows(b[at], small, large);
        }
    }
}

/// The order in which modules are put together places every module behind all of its
/// dependencies: whatever a module depends on is one of the names that are loaded from
/// the start, or the name of a module that stands before it.
pub proof fn law_modules_follow_dependencies(modules: Seq<JsModuleV>, satisfied: Set<Seq<char>>)
    ensures
        assembly_order(modules, satisfied) matches Ok(order) ==> follows_dependencies(
            order,
            satisfied,
        ),
    decreases modules.len(),
{
    if modules.len() > 0 {
        let p = pass(modules, satisfied);
        if p.emitted.len() == 0 || p.kept.len() >= modules.len() {
        } else {
            lemma_pass_sound(modules, satisfied);
            law_modules_follow_dependencies(p.kept, p.satisfied);
            match assembly_order(p.kept, p.satisfied) {
                Ok(rest) => {
                    lemma_follows_joined(p.emitted, rest, satisfied);
                },
                Err(_) => {},
            }
        }
    }
}

proof fn lemma_pass_members(rest: Seq<JsModuleV>, satisfied: Set<Seq<char>>)
    ensures
        forall|i: int|
            0 <= i < rest.len() ==> pass(rest, satisfied).emitted.contains(#[trigger] rest[i])
                || pass(rest, satisfied).kept.contains(rest[i]),
        forall|k: int|
            0 <= k < pass(rest, satisfied).emitted.len() ==> rest.contains(
                #[trigger] pass(rest, satisfied).emitted[k],
            ),
        forall|k: int|
            0 <= k < pass(rest, satisfied).kept.len() ==> rest.contains(
                #[trigger] pass(rest, satisfied).kept[k],
            ),
    decreases rest.len(),
{
    let p = pass(rest, satisfied);
    if rest.len() > 0 {
        let first = rest[0];
        let tail = rest.drop_first();
        let after = if ready(first, satisfied) {
            pass(tail, satisfied.insert(first.name))
        } else {
            pass(tail, satisfied)
        };
        if ready(first, satisfied) {
            lemma_pass_members(tail, satisfied.insert(first.name));
        } else {
            lemma_pass_members(tail, satisfied);
        }
        assert forall|i: int| 0 <= i < rest.len() implies p.emitted.contains(#[trigger] rest[i])
            || p.kept.contains(rest[i]) by {
            if i == 0 {
                if ready(first, satisfied) {
                    assert(p.emitted[0] == first);
                } else {
                    assert(p.kept[0] == first);
                }
            } else {
                assert(tail[i - 1] == rest[i]);
                if after.emitted.contains(tail[i - 1]) {
                    let w = choose|w: int|
                        0 <= w < after.emitted.len() && after.emitted[w] == tail[i - 1];
                    if ready(first, satisfied) {
                        assert(p.emitted[w + 1] == rest[i]);
                    } else {
                        assert(p.emitted[w] == rest[i]);
                    }
                } else {
                    let w = choose|w: int| 0 <= w < after.kept.len() && after.kept[w] == tail[i - 1];
                    if ready(first, satisfied) {
                        assert(p.kept[w] == rest[i]);
                    } else {
                        assert(p.kept[w + 1] == rest[i]);
                    }
                }
            }
        }
        assert forall|k: int| 0 <= k < p.emitted.len() implies rest.contains(
            #[trigger] p.emitted[k],
        ) by {
            if ready(first, satisfied) && k == 0 {
                assert(rest[0] == p.emitted[0]);
            } else {
                let inner = if ready(first, satisfied) {
                    k - 1
                } else {
                    k
                };
                assert(after.emitted[inner] == p.emitted[k]);
                let w = choose|w: int| 0 <= w < tail.len() && tail[w] == after.emitted[inner];
                assert(rest[w + 1] == p.emitted[k]);
            }
        }
        assert forall|k: int| 0 <= k < p.kept.len() implies rest.contains(#[trigger] p.kept[k]) by {
            if !ready(first, satisfied) && k == 0 {
                assert(rest[0] == p.kept[0]);
            } else {
                let inner = if ready(first, satisfied) {
                    k
                } else {
                    k - 1
                };
                assert(after.kept[inner] == p.kept[k]);
                let w = choose|w: int| 0 <= w < tail.len() && tail[w] == after.kept[inner];
                assert(rest[w + 1] == p.kept[k]);
            }
        }
    }
}

/// The order in which modules are put together holds every module, and nothing but the
/// modules.
pub proof fn law_order_holds_the_modules(modules: Seq<JsModuleV>, satisfied: Set<Seq<char>>)
    ensures
        assembly_order(modules, satisfied) matches Ok(order) ==> order.len() == modules.len() && (
        forall|i: int| 0 <= i < modules.len() ==> order.contains(#[trigger] modules[i])) && (
        forall|k: int| 0 <= k < order.len() ==> modules.contains(#[trigger] order[k])),
    decreases modules.len(),
{
    if modules.len() > 0 {
        let p = pass(modules, satisfied);
        if p.emitted.len() == 0 || p.kept.len() >= modules.len() {
        } else {
            lemma_pass_members(modules, satisfied);
            lemma_pass_lengths(modules, satisfied);
            law_order_holds_the_modules(p.kept, p.satisfied);
            match assembly_order(p.kept, p.satisfied) {
                Ok(rest) => {
                    let order = p.emitted + rest;
                    assert forall|i: int| 0 <= i < modules.len() implies order.contains(
                        #[trigger] modules[i],
                    ) by {
                        if p.emitted.contains(modules[i]) {
                            let w = choose|w: int|
                                0 <= w < p.emitted.len() && p.emitted[w] == modules[i];
                            assert(order[w] == modules[i]);
                        } else {
                            let w = choose|w: int| 0 <= w < p.kept.len() && p.kept[w] == modules[i];
                            assert(rest.contains(p.kept[w]));
                            let v = choose|v: int| 0 <= v < rest.len() && rest[v] == p.kept[w];
                            assert(order[v + p.emitted.len()] == modules[i]);
                        }
                    }
                    assert forall|k: int| 0 <= k < order.len() implies modules.contains(
                        #[trigger] order[k],
                    ) by {
                        if k < p.emitted.len() {
                            assert(order[k] == p.emitted[k]);
                        } else {
                            assert(order[k] == rest[k - p.emitted.len()]);
                            assert(p.kept.contains(rest[k - p.emitted.len()]));
                            let w = choose|w: int|
                                0 <= w < p.kept.len() && p.kept[w] == rest[k - p.emitted.len()];
                            assert(modules.contains(p.kept[w]));
                        }
                    }
                },
                Err(_) => {},
            }
        }
    }
}

proof fn lemma_least(holds: spec_fn(int) -> bool, n: int) -> (least: int)
    requires
        exists|k: int| 0 <= k < n && #[trigger] holds(k),
    ensures
        0 <= least < n,
        holds(least),
        forall|k: int| 0 <= k < least ==> !#[trigger] holds(k),
    decreases n,
{
    if exists|k: int| 0 <= k < n - 1 && #[trigger] holds(k) {
        lemma_least(holds, n - 1)
    } else {
        n - 1
    }
}

/// The place in the cycle `names` that comes after the place `i`.
pub open spec fn next_in_cycle(names: Seq<Seq<char>>, i: int) -> int {
    if i + 1 < names.len() {
        i + 1
    } else {
        0
    }
}

/// Whether the names `names` are a cycle among the modules `modules`: each of them is
/// the name of a module, and every module of that name depends on the next of them, the
/// last on the first.
pub open spec fn is_cycle(modules: Seq<JsModuleV>, names: Seq<Seq<char>>) -> bool {
    &&& names.len() > 0
    &&& forall|i: int|
        0 <= i < names.len() ==> exists|k: int|
            0 <= k < modules.len() && (#[trigger] modules[k]).name == #[trigger] names[i]
    &&& forall|i: int, k: int|
        0 <= i < names.len() && 0 <= k < modules.len() && (#[trigger] modules[k]).name
            == #[trigger] names[i] ==> modules[k].deps.contains(names[next_in_cycle(names, i)])
}

/// Modules that depend on one another in a cycle are not put together: the assembly
/// fails, and ends.
pub proof fn law_cycle_fails(modules: Seq<JsModuleV>, satisfied: Set<Seq<char>>, names: Seq<Seq<char>>)
    requires
        is_cycle(modules, names),
        forall|i: int| 0 <= i < names.len() ==> !satisfied.contains(#[trigger] names[i]),
    ensures
        assembly_order(modules, satisfied) is Err,
{
    match assembly_order(modules, satisfied) {
        Ok(order) => {
            law_modules_follow_dependencies(modules, satisfied);
            law_order_holds_the_modules(modules, satisfied);
            let in_cycle = |p: int| 0 <= p < order.len() && names.contains(order[p].name);
            let k0 = choose|k: int| 0 <= k < modules.len() && modules[k].name == names[0];
            assert(order.contains(modules[k0]));
            let p0 = choose|p: int| 0 <= p < order.len() && order[p] == modules[k0];
            assert(names[0] == order[p0].name);
            assert(in_cycle(p0));
            let p = lemma_least(in_cycle, order.len() as int);
            let i = choose|i: int| 0 <= i < names.len() && names[i] == order[p].name;
            let next = names[next_in_cycle(names, i)];
            assert(modules.contains(order[p]));
            let k = choose|k: int| 0 <= k < modules.len() && modules[k] == order[p];
            assert(modules[k].name == names[i]);
            assert(order[p].deps.contains(next));
            let j = choose|j: int| 0 <= j < order[p].deps.len() && order[p].deps[j] == next;
            assert(ready(order[p], satisfied.union(earlier(order, p))));
            assert(satisfied.union(earlier(order, p)).contains(order[p].deps[j]));
            assert(!satisfied.contains(names[next_in_cycle(names, i)]));
            assert(earlier(order, p).contains(next));
            let q = choose|q: int| 0 <= q < p && q < order.len() && order[q].name == next;
            assert(names[next_in_cycle(names, i)] == order[q].name);
            assert(in_cycle(q));
            assert(false);
        },
        Err(_) => {},
    }
}

/// Whether `rank` shows that the modules `modules` depend on one another without a
/// cycle, and on nothing that is missing: whatever a module depends on is loaded from
/// the start, or is the name of a module, and then of lower rank than the module itself.
pub open spec fn ranked(
    modules: Seq<JsModuleV>,
    satisfied: Set<Seq<char>>,
    rank: spec_fn(Seq<char>) -> nat,
) -> bool {
    forall|i: int, j: int|
        0 <= i < modules.len() && 0 <= j < modules[i].deps.len() ==> satisfied.contains(
            #[trigger] modules[i].deps[j],
        ) || (rank(modules[i].deps[j]) < rank(modules[i].name) && exists|k: int|
            0 <= k < modules.len() && (#[trigger] modules[k]).name == modules[i].deps[j])
}

proof fn lemma_lowest_rank(modules: Seq<JsModuleV>, rank: spec_fn(Seq<char>) -> nat, n: int) -> (at:
    int)
    requires
        0 < n <= modules.len(),
    ensures
        0 <= at < n,
        forall|k: int| 0 <= k < n ==> rank(modules[at].name) <= rank((#[trigger] modules[k]).name),
    decreases n,
{
    if n == 1 {
        0
    } else {
        let before = lemma_lowest_rank(modules, rank, n - 1);
        if rank(modules[n - 1].name) < rank(modules[before].name) {
            n - 1
        } else {
            before
        }
    }
}

proof fn lemma_pass_emits_ready(rest: Seq<JsModuleV>, satisfied: Set<Seq<char>>, at: int)
    requires
        0 <= at < rest.len(),
        ready(rest[at], satisfied),
    ensures
        pass(rest, satisfied).emitted.len() > 0,
    decreases rest.len(),
{
    if ready(rest[0], satisfied) {
    } else {
        assert(at > 0);
        assert(rest.drop_first()[at - 1] == rest[at]);
        lemma_pass_emits_ready(rest.drop_first(), satisfied, at - 1);
    }
}

/// Modules that depend on one another without a cycle, and on nothing that is missing,
/// are put together.
pub proof fn law_acyclic_assembles(
    modules: Seq<JsModuleV>,
    satisfied: Set<Seq<char>>,
    rank: spec_fn(Seq<char>) -> nat,
)
    requires
        ranked(modules, satisfied, rank),
    ensures
        assembly_order(modules, satisfied) is Ok,
    decreases modules.len(),
{
    if modules.len() > 0 {
        let p = pass(modules, satisfied);
        let low = lemma_lowest_rank(modules, rank, modules.len() as int);
        assert(ready(modules[low], satisfied)) by {
            assert forall|j: int| 0 <= j < modules[low].deps.len() implies satisfied.contains(
                #[trigger] modules[low].deps[j],
            ) by {
                if !satisfied.contains(modules[low].deps[j]) {
                    let k = choose|k: int|
                        0 <= k < modules.len() && (#[trigger] modules[k]).name
                            == modules[low].deps[j];
                    assert(rank(modules[low].name) <= rank(modules[k].name));
                }
            }
        }
        lemma_pass_emits_ready(modules, satisfied, low);
        lemma_pass_lengths(modules, satisfied);
        lemma_pass_members(modules, satisfied);
        lemma_pass_sound(modules, satisfied);
        assert(ranked(p.kept, p.satisfied, rank)) by {
            assert forall|i: int, j: int|
                0 <= i < p.kept.len() && 0 <= j < p.kept[i].deps.len() implies p.satisfied.contains(
                #[trigger] p.kept[i].deps[j],
            ) || (rank(p.kept[i].deps[j]) < rank(p.kept[i].name) && exists|k: int|
                0 <= k < p.kept.len() && (#[trigger] p.kept[k]).name == p.kept[i].deps[j]) by {
                let dep = p.kept[i].deps[j];
                assert(modules.contains(p.kept[i]));
                let m = choose|m: int| 0 <= m < modules.len() && modules[m] == p.kept[i];
                assert(modules[m].deps[j] == dep);
                if satisfied.contains(dep) {
                } else {
                    let k = choose|k: int|
                        0 <= k < modules.len() && (#[trigger] modules[k]).name == dep;
                    if p.emitted.contains(modules[k]) {
                        let w = choose|w: int| 0 <= w < p.emitted.len() && p.emitted[w] == modules[k];
                        assert(earlier(p.emitted, p.emitted.len() as int).contains(dep));
                    } else {
                        let w = choose|w: int| 0 <= w < p.kept.len() && p.kept[w] == modules[k];
                        assert(p.kept[w].name == dep);
                    }
                }
            }
        }
        law_acyclic_assembles(p.kept, p.satisfied, rank);
    }
}

} // verus!
