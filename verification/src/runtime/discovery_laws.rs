//! What every search for inputs keeps, whatever the file system answers.
use vstd::prelude::*;

use crate::backend::IoErrorView;
use crate::path;
use crate::runtime::discovery;
use crate::runtime::discovery::{
    AdditionView, AnswerView, DiscoveryErrorView, DiscoveryRequestView, DiscoveryView,
    MatchFindingView, RootFacts, RootFindingView, RootStep, WalkStepView,
};
use crate::table;

verus! {

/// A search at its beginning.
pub open spec fn begun(request: DiscoveryRequestView) -> DiscoveryView {
    DiscoveryView { request, found: Map::empty() }
}

/// The inputs of a search after these additions.
pub open spec fn inputs_after(
    request: DiscoveryRequestView,
    additions: Seq<AdditionView>,
) -> Seq<Seq<u8>> {
    begun(request).with_all(additions).inputs()
}

/// Whether two lists hold the same paths in the same order.
pub open spec fn same_inputs(a: Seq<Seq<u8>>, b: Seq<Seq<u8>>) -> bool {
    &&& a.len() == b.len()
    &&& forall|i: int| 0 <= i < a.len() ==> path::same_path(#[trigger] a[i], b[i])
}

/// Whether the paths ascend strictly.
pub open spec fn ascend(inputs: Seq<Seq<u8>>) -> bool {
    forall|i: int, j: int|
        0 <= i < j < inputs.len() ==> table::precedes(
            discovery::order_key(#[trigger] inputs[i]),
            discovery::order_key(#[trigger] inputs[j]),
        )
}

/// Whether a path was added with this key and passed the filters.
spec fn was_added(
    request: DiscoveryRequestView,
    additions: Seq<AdditionView>,
    key: Seq<char>,
    input: Seq<u8>,
) -> bool {
    exists|i: int|
        0 <= i < additions.len() && (#[trigger] additions[i]).input == input && request.passes(
            additions[i].relative,
        ) && discovery::order_key(input) == key
}

proof fn lemma_found(request: DiscoveryRequestView, additions: Seq<AdditionView>)
    ensures
        ({
            let d = begun(request).with_all(additions);
            &&& d.request == request
            &&& table::is_listed(d.found)
            &&& forall|k: Seq<char>| #[trigger]
                d.found.dom().contains(k) ==> was_added(request, additions, k, d.found[k])
            &&& forall|i: int|
                0 <= i < additions.len() && request.passes((#[trigger] additions[i]).relative)
                    ==> d.found.dom().contains(discovery::order_key(additions[i].input))
        }),
    decreases additions.len(),
{
    if additions.len() == 0 {
        table::lemma_empty_is_listed::<Seq<u8>>();
    } else {
        let before = additions.drop_last();
        let last = additions.last();
        lemma_found(request, before);
        let was = begun(request).with_all(before);
        let d = begun(request).with_all(additions);
        let key = discovery::order_key(last.input);
        if request.passes(last.relative) && !was.found.dom().contains(key) {
            table::lemma_insert_is_listed(was.found, key, last.input);
        }
        assert forall|k: Seq<char>| #[trigger] d.found.dom().contains(k) implies was_added(
            request,
            additions,
            k,
            d.found[k],
        ) by {
            if was.found.dom().contains(k) {
                assert(was_added(request, before, k, was.found[k]));
                let i = choose|i: int|
                    0 <= i < before.len() && (#[trigger] before[i]).input == was.found[k]
                        && request.passes(before[i].relative) && discovery::order_key(
                        was.found[k],
                    ) == k;
                assert(additions[i] == before[i]);
            } else {
                assert(additions[additions.len() - 1] == last);
            }
        }
        assert forall|i: int|
            0 <= i < additions.len() && request.passes(
                (#[trigger] additions[i]).relative,
            ) implies d.found.dom().contains(discovery::order_key(additions[i].input)) by {
            if i < additions.len() - 1 {
                assert(before[i] == additions[i]);
            }
        }
    }
}

/// Every input has its place by its key, and was added.
proof fn lemma_inputs(request: DiscoveryRequestView, additions: Seq<AdditionView>)
    ensures
        ({
            let found = begun(request).with_all(additions).found;
            let inputs = inputs_after(request, additions);
            &&& table::is_listed(found)
            &&& inputs.len() == table::listing(found).len()
            &&& forall|i: int|
                0 <= i < inputs.len() ==> discovery::order_key(#[trigger] inputs[i])
                    == table::listing(found)[i].0
            &&& forall|i: int|
                0 <= i < inputs.len() ==> exists|j: int|
                    0 <= j < additions.len() && (#[trigger] additions[j]).input
                        == #[trigger] inputs[i]
        }),
{
    lemma_found(request, additions);
    let found = begun(request).with_all(additions).found;
    let pairs = table::listing(found);
    let inputs = inputs_after(request, additions);
    assert forall|i: int| 0 <= i < inputs.len() implies discovery::order_key(#[trigger] inputs[i])
        == pairs[i].0 && exists|j: int|
        0 <= j < additions.len() && (#[trigger] additions[j]).input == inputs[i] by {
        table::lemma_key_index(pairs, i);
        assert(found.dom().contains(pairs[i].0));
        assert(was_added(request, additions, pairs[i].0, found[pairs[i].0]));
    }
}

/// After any additions the inputs ascend strictly, so that none is there twice, and each of them
/// was added.
pub proof fn law_inputs_ascend(request: DiscoveryRequestView, additions: Seq<AdditionView>)
    ensures
        ascend(inputs_after(request, additions)),
        forall|i: int|
            0 <= i < inputs_after(request, additions).len() ==> exists|j: int|
                0 <= j < additions.len() && (#[trigger] additions[j]).input
                    == #[trigger] inputs_after(request, additions)[i],
{
    lemma_inputs(request, additions);
    let pairs = table::listing(begun(request).with_all(additions).found);
    let inputs = inputs_after(request, additions);
    assert forall|i: int, j: int| 0 <= i < j < inputs.len() implies table::precedes(
        discovery::order_key(#[trigger] inputs[i]),
        discovery::order_key(#[trigger] inputs[j]),
    ) by {
        assert(table::precedes(pairs[i].0, pairs[j].0));
    }
}

/// Where only Matroska files are added, the inputs are Matroska files.
pub proof fn law_inputs_are_matroska(request: DiscoveryRequestView, additions: Seq<AdditionView>)
    requires
        forall|i: int| 0 <= i < additions.len() ==> path::is_mkv((#[trigger] additions[i]).input),
    ensures
        forall|i: int|
            0 <= i < inputs_after(request, additions).len() ==> path::is_mkv(
                #[trigger] inputs_after(request, additions)[i],
            ),
{
    lemma_inputs(request, additions);
    let inputs = inputs_after(request, additions);
    assert forall|i: int| 0 <= i < inputs.len() implies path::is_mkv(#[trigger] inputs[i]) by {
        let j = choose|j: int|
            0 <= j < additions.len() && (#[trigger] additions[j]).input == inputs[i];
        assert(path::is_mkv(additions[j].input));
    }
}

/// The same additions in another order, or repeated, give the same inputs; where no path is spelt
/// in two ways, they are spelt the same too.
pub proof fn law_order_of_additions_is_irrelevant(
    request: DiscoveryRequestView,
    a: Seq<AdditionView>,
    b: Seq<AdditionView>,
)
    requires
        forall|x: AdditionView| #[trigger] a.contains(x) <==> b.contains(x),
    ensures
        same_inputs(inputs_after(request, a), inputs_after(request, b)),
        (forall|i: int, j: int|
            0 <= i < a.len() && 0 <= j < a.len() && path::same_path(
                (#[trigger] a[i]).input,
                (#[trigger] a[j]).input,
            ) ==> a[i].input == a[j].input) ==> inputs_after(request, a) == inputs_after(
            request,
            b,
        ),
{
    lemma_inputs(request, a);
    lemma_inputs(request, b);
    let m = begun(request).with_all(a).found;
    let n = begun(request).with_all(b).found;
    lemma_keys_follow(request, a, b);
    lemma_keys_follow(request, b, a);
    assert(m.dom() =~= n.dom());
    table::lemma_same_keys_listed(m, n);
    let x = inputs_after(request, a);
    let y = inputs_after(request, b);
    assert forall|i: int| 0 <= i < x.len() implies path::same_path(#[trigger] x[i], y[i]) by {
        assert(discovery::order_key(x[i]) == table::listing(m)[i].0);
        assert(discovery::order_key(y[i]) == table::listing(n)[i].0);
        discovery::law_keys_tell_paths_apart(x[i], y[i]);
    }
    if forall|i: int, j: int|
        0 <= i < a.len() && 0 <= j < a.len() && path::same_path(
            (#[trigger] a[i]).input,
            (#[trigger] a[j]).input,
        ) ==> a[i].input == a[j].input {
        assert forall|i: int| 0 <= i < x.len() implies x[i] == y[i] by {
            assert(path::same_path(x[i], y[i]));
            let p = choose|j: int| 0 <= j < a.len() && (#[trigger] a[j]).input == x[i];
            let q = choose|j: int| 0 <= j < b.len() && (#[trigger] b[j]).input == y[i];
            assert(b.contains(b[q]));
            assert(a.contains(b[q]));
            let s = choose|j: int| 0 <= j < a.len() && a[j] == b[q];
            assert(path::same_path(a[p].input, a[s].input));
        }
        assert(x =~= y);
    }
}

proof fn lemma_keys_follow(
    request: DiscoveryRequestView,
    a: Seq<AdditionView>,
    b: Seq<AdditionView>,
)
    requires
        forall|x: AdditionView| #[trigger] a.contains(x) <==> b.contains(x),
    ensures
        forall|k: Seq<char>| #[trigger]
            begun(request).with_all(a).found.dom().contains(k) ==> begun(request).with_all(
                b,
            ).found.dom().contains(k),
{
    lemma_found(request, a);
    lemma_found(request, b);
    let m = begun(request).with_all(a).found;
    let n = begun(request).with_all(b).found;
    assert forall|k: Seq<char>| #[trigger] m.dom().contains(k) implies n.dom().contains(k) by {
        assert(was_added(request, a, k, m[k]));
        let i = choose|i: int|
            0 <= i < a.len() && (#[trigger] a[i]).input == m[k] && request.passes(a[i].relative)
                && discovery::order_key(m[k]) == k;
        assert(a.contains(a[i]));
        let j = choose|j: int| 0 <= j < b.len() && b[j] == a[i];
        assert(request.passes(b[j].relative));
    }
}

/// The search after these roots, for which the file system gives these answers.
pub open spec fn collected(
    d: DiscoveryView,
    roots: Seq<Seq<u8>>,
    answers: spec_fn(Seq<u8>) -> AnswerView,
) -> Result<DiscoveryView, DiscoveryErrorView>
    decreases roots.len(),
{
    if roots.len() == 0 {
        Ok(d)
    } else {
        match collected(d, roots.drop_last(), answers) {
            Ok(next) => next.with_answer(answers(roots.last())),
            Err(e) => Err(e),
        }
    }
}

/// What comes of a request in a file system that gives these answers and does not change.
pub open spec fn discovered(
    request: DiscoveryRequestView,
    answers: spec_fn(Seq<u8>) -> AnswerView,
) -> Result<Seq<Seq<u8>>, DiscoveryErrorView> {
    match request.fault() {
        Some(e) => Err(e),
        None => match collected(begun(request), request.roots, answers) {
            Ok(d) => Ok(d.inputs()),
            Err(e) => Err(e),
        },
    }
}

/// Whether a root adds this.
pub open spec fn adds(answer: AnswerView, follow_links: bool, addition: AdditionView) -> bool {
    answer.additions(follow_links) matches Ok(all) && all.contains(addition)
}

/// Whether one of the roots adds this.
spec fn some_adds(
    roots: Seq<Seq<u8>>,
    answers: spec_fn(Seq<u8>) -> AnswerView,
    follow_links: bool,
    addition: AdditionView,
) -> bool {
    exists|i: int|
        0 <= i < roots.len() && adds(answers(#[trigger] roots[i]), follow_links, addition)
}

/// A search succeeds exactly where every root does, and then holds what the roots add.
proof fn lemma_collected(
    request: DiscoveryRequestView,
    roots: Seq<Seq<u8>>,
    answers: spec_fn(Seq<u8>) -> AnswerView,
) -> (all: Seq<AdditionView>)
    ensures
        collected(begun(request), roots, answers) is Ok <==> forall|i: int|
            0 <= i < roots.len() ==> answers(#[trigger] roots[i]).additions(
                request.follow_links,
            ) is Ok,
        collected(begun(request), roots, answers) is Ok ==> {
            &&& collected(begun(request), roots, answers) == Ok::<_, DiscoveryErrorView>(
                begun(request).with_all(all),
            )
            &&& forall|x: AdditionView| #[trigger]
                all.contains(x) <==> some_adds(roots, answers, request.follow_links, x)
        },
    decreases roots.len(),
{
    let follow = request.follow_links;
    if roots.len() == 0 {
        let none = Seq::<AdditionView>::empty();
        assert(begun(request).with_all(none) == begun(request));
        none
    } else {
        let before = roots.drop_last();
        let some = lemma_collected(request, before, answers);
        let answer = answers(roots.last());
        assert(roots[roots.len() - 1] == roots.last());
        assert forall|i: int| 0 <= i < before.len() implies before[i] == roots[i] by {}
        if collected(begun(request), before, answers) is Ok {
            discovery::lemma_requests_stay(begun(request), some);
            if answer.additions(follow) is Ok {
                assert forall|i: int| 0 <= i < roots.len() implies answers(
                    #[trigger] roots[i],
                ).additions(follow) is Ok by {
                    if i < before.len() {
                        assert(answers(before[i]).additions(follow) is Ok);
                    }
                }
                let more = answer.additions(follow)->Ok_0;
                let all = some + more;
                discovery::lemma_with_both(begun(request), some, more);
                assert forall|x: AdditionView| #[trigger] all.contains(x) <==> some_adds(
                    roots,
                    answers,
                    follow,
                    x,
                ) by {
                    if all.contains(x) {
                        let i = choose|i: int| 0 <= i < all.len() && all[i] == x;
                        if i < some.len() {
                            assert(some[i] == x);
                            assert(some.contains(x));
                            let r = choose|r: int|
                                0 <= r < before.len() && adds(
                                    answers(#[trigger] before[r]),
                                    follow,
                                    x,
                                );
                            assert(adds(answers(roots[r]), follow, x));
                        } else {
                            assert(more[i - some.len()] == x);
                            assert(adds(answers(roots[roots.len() - 1]), follow, x));
                        }
                    }
                    if some_adds(roots, answers, follow, x) {
                        let r = choose|r: int|
                            0 <= r < roots.len() && adds(answers(#[trigger] roots[r]), follow, x);
                        if r < before.len() {
                            assert(adds(answers(before[r]), follow, x));
                            assert(some.contains(x));
                            let i = choose|i: int| 0 <= i < some.len() && some[i] == x;
                            assert(all[i] == x);
                        } else {
                            let i = choose|i: int| 0 <= i < more.len() && more[i] == x;
                            assert(all[some.len() + i] == x);
                        }
                    }
                }
                all
            } else {
                assert(!(answers(roots[roots.len() - 1]).additions(follow) is Ok));
                some
            }
        } else {
            let r = choose|r: int|
                0 <= r < before.len() && !(answers(#[trigger] before[r]).additions(
                    follow,
                ) is Ok);
            assert(!(answers(roots[r]).additions(follow) is Ok));
            some
        }
    }
}

proof fn lemma_walk(root: Seq<u8>, walk: Seq<WalkStepView>)
    ensures
        match discovery::walked(root, walk) {
            Ok(all) => forall|i: int|
                0 <= i < all.len() ==> path::is_mkv((#[trigger] all[i]).input),
            Err(e) => !(e is Empty),
        },
    decreases walk.len(),
{
    if walk.len() > 0 {
        lemma_walk(root, walk.drop_last());
    }
}

proof fn lemma_finding(finding: RootFindingView, follow_links: bool)
    ensures
        match finding.additions(follow_links) {
            Ok(all) => forall|i: int|
                0 <= i < all.len() ==> path::is_mkv((#[trigger] all[i]).input),
            Err(e) => !(e is Empty),
        },
{
    lemma_walk(finding.path, finding.walk);
}

proof fn lemma_matches(matches: Seq<MatchFindingView>, follow_links: bool)
    ensures
        match discovery::matches_additions(matches, follow_links) {
            Ok(all) => forall|i: int|
                0 <= i < all.len() ==> path::is_mkv((#[trigger] all[i]).input),
            Err(e) => !(e is Empty),
        },
    decreases matches.len(),
{
    if matches.len() > 0 {
        lemma_matches(matches.drop_last(), follow_links);
        if let MatchFindingView::Found(finding) = matches.last() {
            lemma_finding(finding, follow_links);
        }
    }
}

proof fn lemma_answer(answer: AnswerView, follow_links: bool)
    ensures
        match answer.additions(follow_links) {
            Ok(all) => forall|i: int|
                0 <= i < all.len() ==> path::is_mkv((#[trigger] all[i]).input),
            Err(e) => !(e is Empty),
        },
{
    match answer {
        AnswerView::Path(finding) => lemma_finding(finding, follow_links),
        AnswerView::Pattern { pattern, matches: Ok(matches) } => lemma_matches(
            matches,
            follow_links,
        ),
        _ => {},
    }
}

proof fn lemma_never_empty(
    d: DiscoveryView,
    roots: Seq<Seq<u8>>,
    answers: spec_fn(Seq<u8>) -> AnswerView,
)
    ensures
        collected(d, roots, answers) matches Err(e) ==> !(e is Empty),
    decreases roots.len(),
{
    if roots.len() > 0 {
        lemma_never_empty(d, roots.drop_last(), answers);
        if let Ok(next) = collected(d, roots.drop_last(), answers) {
            lemma_answer(answers(roots.last()), next.request.follow_links);
        }
    }
}

proof fn lemma_patterns_never_empty(kind: Seq<char>, patterns: Seq<Seq<char>>, n: int)
    ensures
        discovery::patterns_fault(kind, patterns, n) matches Some(e) ==> !(e is Empty),
    decreases n,
{
    if n > 0 {
        lemma_patterns_never_empty(kind, patterns, n - 1);
    }
}

/// A request is refused as empty exactly where it has no root. Where it succeeds, the inputs ascend
/// strictly, so that none is there twice, and all of them are Matroska files.
pub proof fn law_discovery_is_sorted_and_filtered(
    request: DiscoveryRequestView,
    answers: spec_fn(Seq<u8>) -> AnswerView,
)
    ensures
        discovered(request, answers) == Err::<Seq<Seq<u8>>, _>(DiscoveryErrorView::Empty)
            <==> request.roots.len() == 0,
        discovered(request, answers) matches Ok(inputs) ==> ascend(inputs) && forall|i: int|
            0 <= i < inputs.len() ==> path::is_mkv(#[trigger] inputs[i]),
{
    let includes = discovery::effective_includes(request.includes);
    lemma_patterns_never_empty("include"@, includes, includes.len() as int);
    lemma_patterns_never_empty("exclude"@, request.excludes, request.excludes.len() as int);
    lemma_never_empty(begun(request), request.roots, answers);
    let all = lemma_collected(request, request.roots, answers);
    if discovered(request, answers) is Ok {
        assert forall|i: int| 0 <= i < all.len() implies path::is_mkv(
            (#[trigger] all[i]).input,
        ) by {
            assert(all.contains(all[i]));
            let r = choose|r: int|
                0 <= r < request.roots.len() && adds(
                    answers(#[trigger] request.roots[r]),
                    request.follow_links,
                    all[i],
                );
            lemma_answer(answers(request.roots[r]), request.follow_links);
        }
        law_inputs_ascend(request, all);
        law_inputs_are_matroska(request, all);
    }
}

/// Requests that differ only in the order or the repetition of their roots succeed together, and
/// then give the same inputs.
pub proof fn law_order_of_roots_is_irrelevant(
    a: DiscoveryRequestView,
    b: DiscoveryRequestView,
    answers: spec_fn(Seq<u8>) -> AnswerView,
)
    requires
        b == (DiscoveryRequestView { roots: b.roots, ..a }),
        forall|root: Seq<u8>| #[trigger] a.roots.contains(root) <==> b.roots.contains(root),
    ensures
        discovered(a, answers) is Ok <==> discovered(b, answers) is Ok,
        discovered(a, answers) is Ok ==> same_inputs(
            discovered(a, answers)->Ok_0,
            discovered(b, answers)->Ok_0,
        ),
{
    let s = lemma_collected(a, a.roots, answers);
    let t = lemma_collected(b, b.roots, answers);
    lemma_roots_matter_as_a_set(a, b, answers);
    lemma_roots_matter_as_a_set(b, a, answers);
    if discovered(a, answers) is Ok {
        assert forall|x: AdditionView| #[trigger] s.contains(x) <==> t.contains(x) by {
            if s.contains(x) {
                assert(some_adds(a.roots, answers, a.follow_links, x));
                lemma_some_adds(a.roots, b.roots, answers, a.follow_links, x);
            }
            if t.contains(x) {
                assert(some_adds(b.roots, answers, b.follow_links, x));
                lemma_some_adds(b.roots, a.roots, answers, a.follow_links, x);
            }
        }
        law_order_of_additions_is_irrelevant(a, s, t);
        lemma_roots_are_not_looked_at(a, b, t);
    }
}

proof fn lemma_some_adds(
    a: Seq<Seq<u8>>,
    b: Seq<Seq<u8>>,
    answers: spec_fn(Seq<u8>) -> AnswerView,
    follow_links: bool,
    x: AdditionView,
)
    requires
        forall|root: Seq<u8>| #[trigger] a.contains(root) ==> b.contains(root),
        some_adds(a, answers, follow_links, x),
    ensures
        some_adds(b, answers, follow_links, x),
{
    let i = choose|i: int| 0 <= i < a.len() && adds(answers(#[trigger] a[i]), follow_links, x);
    assert(a.contains(a[i]));
    let j = choose|j: int| 0 <= j < b.len() && b[j] == a[i];
    assert(adds(answers(b[j]), follow_links, x));
}

proof fn lemma_roots_matter_as_a_set(
    a: DiscoveryRequestView,
    b: DiscoveryRequestView,
    answers: spec_fn(Seq<u8>) -> AnswerView,
)
    requires
        b == (DiscoveryRequestView { roots: b.roots, ..a }),
        forall|root: Seq<u8>| #[trigger] a.roots.contains(root) <==> b.roots.contains(root),
    ensures
        discovered(a, answers) is Ok ==> discovered(b, answers) is Ok,
{
    if discovered(a, answers) is Ok {
        lemma_collected(a, a.roots, answers);
        lemma_collected(b, b.roots, answers);
        assert(a.roots.contains(a.roots[0]));
        assert(b.roots.contains(a.roots[0]));
        assert forall|i: int| 0 <= i < b.roots.len() implies answers(
            #[trigger] b.roots[i],
        ).additions(b.follow_links) is Ok by {
            assert(b.roots.contains(b.roots[i]));
            assert(a.roots.contains(b.roots[i]));
            let j = choose|j: int| 0 <= j < a.roots.len() && a.roots[j] == b.roots[i];
            assert(answers(a.roots[j]).additions(a.follow_links) is Ok);
        }
    }
}

/// Which roots a request has makes no difference once it is known what they add.
proof fn lemma_roots_are_not_looked_at(
    a: DiscoveryRequestView,
    b: DiscoveryRequestView,
    additions: Seq<AdditionView>,
)
    requires
        b == (DiscoveryRequestView { roots: b.roots, ..a }),
    ensures
        begun(a).with_all(additions).found == begun(b).with_all(additions).found,
    decreases additions.len(),
{
    discovery::lemma_requests_stay(begun(a), additions);
    discovery::lemma_requests_stay(begun(b), additions);
    if additions.len() > 0 {
        let before = additions.drop_last();
        lemma_roots_are_not_looked_at(a, b, before);
        discovery::lemma_requests_stay(begun(a), before);
        discovery::lemma_requests_stay(begun(b), before);
    }
}

/// Whether a path passes the filters of a request: some pattern that is asked for matches it, `*.mkv`
/// where none is asked for, and no pattern that is excluded does. Case makes no difference, and a
/// wildcard goes over slashes.
pub open spec fn let_through(request: DiscoveryRequestView, relative: Seq<u8>) -> bool {
    let wanted = if request.includes.len() == 0 {
        discovery::pattern_matches(("*.mkv"@, true, false), relative)
    } else {
        exists|i: int|
            0 <= i < request.includes.len() && discovery::pattern_matches(
                (#[trigger] request.includes[i], true, false),
                relative,
            )
    };
    wanted && forall|i: int|
        0 <= i < request.excludes.len() ==> !discovery::pattern_matches(
            (#[trigger] request.excludes[i], true, false),
            relative,
        )
}

proof fn lemma_any_matches(patterns: Seq<Seq<char>>, relative: Seq<u8>)
    ensures
        discovery::any_matches(discovery::with_options(patterns), relative) <==> exists|i: int|
            0 <= i < patterns.len() && discovery::pattern_matches(
                (#[trigger] patterns[i], true, false),
                relative,
            ),
{
    let all = discovery::with_options(patterns);
    if discovery::any_matches(all, relative) {
        let i = choose|i: int|
            0 <= i < all.len() && discovery::pattern_matches(#[trigger] all[i], relative);
        assert(all[i] == (patterns[i], true, false));
    }
    if exists|i: int|
        0 <= i < patterns.len() && discovery::pattern_matches(
            (#[trigger] patterns[i], true, false),
            relative,
        ) {
        let i = choose|i: int|
            0 <= i < patterns.len() && discovery::pattern_matches(
                (#[trigger] patterns[i], true, false),
                relative,
            );
        assert(all[i] == (patterns[i], true, false));
    }
}

proof fn lemma_let_through(request: DiscoveryRequestView, relative: Seq<u8>)
    ensures
        request.passes(relative) <==> let_through(request, relative),
{
    lemma_any_matches(discovery::effective_includes(request.includes), relative);
    lemma_any_matches(request.excludes, relative);
    if request.includes.len() == 0 {
        let one = discovery::effective_includes(request.includes);
        assert(one[0] == "*.mkv"@);
    }
}

/// Whether a path was added and passes the filters.
pub open spec fn was_let_through(
    request: DiscoveryRequestView,
    additions: Seq<AdditionView>,
    input: Seq<u8>,
) -> bool {
    exists|j: int|
        0 <= j < additions.len() && (#[trigger] additions[j]).input == input && let_through(
            request,
            additions[j].relative,
        )
}

/// The inputs are exactly what was added and passes the filters: every addition that passes is among
/// them, once, however it is spelt, and nothing else is.
pub proof fn law_inputs_are_what_passes(
    request: DiscoveryRequestView,
    additions: Seq<AdditionView>,
)
    ensures
        forall|j: int|
            0 <= j < additions.len() && let_through(request, (#[trigger] additions[j]).relative)
                ==> exists|i: int|
                0 <= i < inputs_after(request, additions).len() && path::same_path(
                    #[trigger] inputs_after(request, additions)[i],
                    additions[j].input,
                ),
        forall|i: int|
            0 <= i < inputs_after(request, additions).len() ==> was_let_through(
                request,
                additions,
                #[trigger] inputs_after(request, additions)[i],
            ),
{
    lemma_found(request, additions);
    lemma_inputs(request, additions);
    let found = begun(request).with_all(additions).found;
    let pairs = table::listing(found);
    let inputs = inputs_after(request, additions);
    assert forall|j: int|
        0 <= j < additions.len() && let_through(
            request,
            (#[trigger] additions[j]).relative,
        ) implies exists|i: int|
        0 <= i < inputs.len() && path::same_path(#[trigger] inputs[i], additions[j].input) by {
        lemma_let_through(request, additions[j].relative);
        let key = discovery::order_key(additions[j].input);
        assert(found.dom().contains(key));
        let i = table::key_index(pairs, key);
        assert(pairs[i].0 == key);
        assert(discovery::order_key(inputs[i]) == key);
        discovery::law_keys_tell_paths_apart(inputs[i], additions[j].input);
    }
    assert forall|i: int| 0 <= i < inputs.len() implies was_let_through(
        request,
        additions,
        #[trigger] inputs[i],
    ) by {
        table::lemma_key_index(pairs, i);
        let key = pairs[i].0;
        assert(found.dom().contains(key));
        assert(was_added(request, additions, key, found[key]));
        let j = choose|j: int|
            0 <= j < additions.len() && (#[trigger] additions[j]).input == found[key]
                && request.passes(additions[j].relative) && discovery::order_key(found[key])
                == key;
        lemma_let_through(request, additions[j].relative);
        assert(additions[j].input == inputs[i]);
    }
}

/// A root that is a Matroska file is an input, a directory is searched, and anything else is refused.
/// A link is followed only on request, and then what it points to decides.
pub proof fn law_roots_are_told_apart(
    root: Seq<u8>,
    entry: Result<RootFacts, IoErrorView>,
    follow_links: bool,
)
    ensures
        ({
            let r = discovery::root_decision(root, entry, follow_links);
            let t = discovery::target_decision(root, entry);
            let link = entry is Ok && entry->Ok_0.symlink;
            let plain = entry is Ok && !entry->Ok_0.symlink;
            let file = entry is Ok && entry->Ok_0.file && path::is_mkv(root);
            let directory = entry is Ok && !entry->Ok_0.file && entry->Ok_0.directory;
            &&& r == Ok::<RootStep, DiscoveryErrorView>(RootStep::FollowLink) <==> link
                && follow_links
            &&& r is Err && r->Err_0 is Symlink <==> link && !follow_links
            &&& r == Ok::<RootStep, DiscoveryErrorView>(RootStep::File) <==> plain && file
            &&& r == Ok::<RootStep, DiscoveryErrorView>(RootStep::Directory) <==> plain && directory
            &&& r is Err && r->Err_0 is Unsupported <==> plain && !file && !directory
            &&& r is Err && r->Err_0 is Inspect <==> entry is Err
            &&& t == Ok::<RootStep, DiscoveryErrorView>(RootStep::File) <==> file
            &&& t == Ok::<RootStep, DiscoveryErrorView>(RootStep::Directory) <==> directory
            &&& t is Err && t->Err_0 is Inspect <==> entry is Err
        }),
{
}

/// A walk adds every Matroska file that it met and nothing else, judged by its path below the root.
/// Something that cannot be read is a failure.
pub proof fn law_walks_add_matroska_files(root: Seq<u8>, walk: Seq<WalkStepView>, input: Seq<u8>)
    ensures
        ({
            let r = discovery::walked(root, walk);
            &&& r is Err <==> exists|i: int|
                0 <= i < walk.len() && #[trigger] walk[i] is Failed
            &&& r matches Ok(added) ==> (added.contains(
                AdditionView { input, relative: discovery::below(root, input) },
            ) <==> path::is_mkv(input) && walk.contains(
                WalkStepView::Entry { path: input, is_file: true },
            ))
            &&& r matches Ok(added) ==> forall|k: int|
                0 <= k < added.len() ==> (#[trigger] added[k]).relative == discovery::below(
                    root,
                    added[k].input,
                )
        }),
    decreases walk.len(),
{
    if walk.len() > 0 {
        let rest = walk.drop_last();
        let last = walk.len() - 1;
        law_walks_add_matroska_files(root, rest, input);
        let before = discovery::walked(root, rest);
        let r = discovery::walked(root, walk);
        assert(walk[last] == walk.last());
        assert forall|i: int| 0 <= i < last implies rest[i] == #[trigger] walk[i] by {}
        let wanted = WalkStepView::Entry { path: input, is_file: true };
        let told = AdditionView { input, relative: discovery::below(root, input) };
        if before is Err {
            let i = choose|i: int| 0 <= i < rest.len() && #[trigger] rest[i] is Failed;
            assert(walk[i] is Failed);
        } else if r is Ok {
            let earlier = before->Ok_0;
            let added = r->Ok_0;
            assert forall|i: int| 0 <= i < walk.len() implies !(#[trigger] walk[i] is Failed) by {
                if i < last {
                    assert(!(rest[i] is Failed));
                }
            }
            if added.contains(told) {
                let k = choose|k: int| 0 <= k < added.len() && added[k] == told;
                if k < earlier.len() {
                    assert(earlier[k] == told);
                    assert(earlier.contains(told));
                    let i = choose|i: int| 0 <= i < rest.len() && rest[i] == wanted;
                    assert(walk[i] == wanted);
                } else {
                    assert(walk[last] == wanted);
                }
            }
            if path::is_mkv(input) && walk.contains(wanted) {
                let i = choose|i: int| 0 <= i < walk.len() && walk[i] == wanted;
                if i < last {
                    assert(rest[i] == wanted);
                    assert(rest.contains(wanted));
                    let k = choose|k: int| 0 <= k < earlier.len() && earlier[k] == told;
                    assert(added[k] == told);
                } else {
                    assert(added[added.len() - 1] == told);
                }
            }
        } else {
            assert(walk[last] is Failed);
        }
    }
}

/// A root that is a file adds itself, judged by its name; a directory adds what a walk through it
/// meets. A pattern adds what its matches add, and fails where nothing matches it.
pub proof fn law_answers_add(finding: RootFindingView, pattern: Seq<char>, follow_links: bool)
    ensures
        ({
            let file = AnswerView::Path(finding).additions(follow_links);
            let step = finding.step(follow_links);
            &&& step == Ok::<RootStep, DiscoveryErrorView>(RootStep::File) ==> (file matches Ok(
                added,
            ) && added.len() == 1 && added[0].input == finding.path && (path::file_name(
                finding.path,
            ) matches Some(name) ==> added[0].relative == name))
            &&& step == Ok::<RootStep, DiscoveryErrorView>(RootStep::Directory) ==> file
                == discovery::walked(finding.path, finding.walk)
            &&& step is Err ==> file is Err && file->Err_0 == step->Err_0
            &&& AnswerView::Pattern { pattern, matches: Ok(seq![]) }.additions(follow_links)
                == Err::<Seq<AdditionView>, DiscoveryErrorView>(
                DiscoveryErrorView::UnmatchedGlob { pattern },
            )
            &&& AnswerView::Pattern {
                pattern,
                matches: Ok(seq![MatchFindingView::Found(finding)]),
            }.additions(follow_links) == file
        }),
{
    let one = seq![MatchFindingView::Found(finding)];
    assert(one.drop_last() =~= seq![]);
    assert(discovery::matches_additions(one.drop_last(), follow_links) == Ok::<
        Seq<AdditionView>,
        DiscoveryErrorView,
    >(seq![]));
    if let Ok(more) = finding.additions(follow_links) {
        assert(Seq::<AdditionView>::empty() + more =~= more);
    }
}

/// A root is a pattern exactly where it holds a star, a question mark or an opening bracket.
pub proof fn law_patterns_hold_wildcards(value: Seq<char>)
    ensures
        discovery::is_pattern(value) <==> exists|i: int|
            0 <= i < value.len() && (#[trigger] value[i] == '*' || value[i] == '?' || value[i]
                == '['),
{
    if value.contains('*') {
        let i = choose|i: int| 0 <= i < value.len() && value[i] == '*';
        assert(value[i] == '*');
    }
    if value.contains('?') {
        let i = choose|i: int| 0 <= i < value.len() && value[i] == '?';
        assert(value[i] == '?');
    }
    if value.contains('[') {
        let i = choose|i: int| 0 <= i < value.len() && value[i] == '[';
        assert(value[i] == '[');
    }
}

} // verus!
