//! What taking the hidden features out does to the rest of the graph: their names are
//! gone from it, and what was switched on through them is switched on directly.

use vstd::prelude::*;
use crate::features::{FeatureView, GraphView};
use crate::features::link::{enablers, linked, plainly_enables};
use crate::features::hidden::{hidden_keys, is_hidden, merged_deps, plain_deps, updated, without_all, without_hidden, Role};
use crate::features::facts::{well_keyed, lemma_without_hidden_well_keyed, lemma_without_all_well_keyed, lemma_hidden_keys_ordered};
use crate::order::sorted_seq;
use crate::features::deps::{pruned, DepsView};
use crate::features::resolve::{before_inlining, finished};
use crate::features::facts::lemma_linked_pruned_well_keyed;

verus! {

/// The features that switch `x` on after the hidden feature `h` is taken out, from
/// those that did so before.
pub open spec fn enabled_by_after(before: Set<Seq<char>>, h: FeatureView, x: Seq<char>) -> Set<
    Seq<char>,
> {
    let as_parent = if h.enabled_by.contains(x) {
        before.remove(h.key)
    } else {
        before
    };
    let as_successor = if h.enables_features.contains(x) {
        as_parent.union(h.enabled_by).remove(h.key)
    } else {
        as_parent
    };
    if plain_deps(h).contains(x) {
        as_successor.union(h.enabled_by).remove(h.key)
    } else {
        as_successor
    }
}

/// What each feature that stays looks like after a hidden feature is taken out.
pub proof fn lemma_without_hidden_fields(g: GraphView, key: Seq<char>, x: Seq<char>)
    requires
        g.dom().contains(key),
        g.dom().contains(x),
        x != key,
    ensures
        without_hidden(g, key).dom().contains(x),
        without_hidden(g, key)[x].key == g[x].key,
        without_hidden(g, key)[x].explicit == g[x].explicit,
        without_hidden(g, key)[x].enables_features == if g[key].enabled_by.contains(x) {
            g[x].enables_features.union(g[key].enables_features).remove(g[key].key)
        } else {
            g[x].enables_features
        },
        without_hidden(g, key)[x].enables_deps == if g[key].enabled_by.contains(x) {
            merged_deps(g[x].enables_deps, g[key].enables_deps).remove(g[key].key)
        } else {
            g[x].enables_deps
        },
        without_hidden(g, key)[x].enabled_by == enabled_by_after(g[x].enabled_by, g[key], x),
{
    let h = g[key];
    let g0 = g.remove(key);
    let g1 = updated(g0, h.enabled_by, h, Role::Parent);
    let g2 = updated(g1, h.enables_features, h, Role::Successor);
    let g3 = updated(g2, plain_deps(h), h, Role::Dependency);
    assert(g0.dom().contains(x));
    assert(g1.dom().contains(x));
    assert(g2.dom().contains(x));
    assert(g3.dom().contains(x));
}

/// Whether every feature that switches a hidden feature on is known to it.
pub open spec fn parents_known(g: GraphView, kept: Set<Seq<char>>) -> bool {
    forall|x: Seq<char>, y: Seq<char>|
        g.dom().contains(x) && g.dom().contains(y) && is_hidden(y, kept) && x != y
            && #[trigger] g[x].enables_features.contains(y) ==> #[trigger] g[y].enabled_by.contains(
            x,
        )
}

/// Whether no feature switches on, as a feature, any name of `gone`.
pub open spec fn no_edge_to(g: GraphView, gone: Set<Seq<char>>) -> bool {
    forall|x: Seq<char>, y: Seq<char>|
        g.dom().contains(x) && gone.contains(y) ==> !(#[trigger] g[x].enables_features.contains(y))
}

/// In a graph that was linked, every feature that switches a hidden one on is known
/// to it.
pub proof fn lemma_linked_parents_known(g: GraphView, kept: Set<Seq<char>>)
    ensures
        parents_known(linked(g), kept),
{
    let l = linked(g);
    assert forall|x: Seq<char>, y: Seq<char>|
        l.dom().contains(x) && l.dom().contains(y) && is_hidden(y, kept) && x != y
            && #[trigger] l[x].enables_features.contains(y) implies #[trigger] l[y].enabled_by.contains(
        x,
    ) by {
        assert(l[x].enables_features == g[x].enables_features);
        assert(enablers(g, y).contains(x));
    }
}

/// Taking a hidden feature out leaves every feature that switches another hidden one
/// on known to it, and leaves no feature that switches the one on that was taken out.
pub proof fn lemma_step_features(g: GraphView, kept: Set<Seq<char>>, gone: Set<Seq<char>>, h: Seq<char>)
    requires
        well_keyed(g),
        parents_known(g, kept),
        no_edge_to(g, gone),
        g.dom().contains(h),
        is_hidden(h, kept),
    ensures
        parents_known(without_hidden(g, h), kept),
        no_edge_to(without_hidden(g, h), gone.insert(h)),
{
    let g2 = without_hidden(g, h);
    let hf = g[h];
    lemma_without_hidden_well_keyed(g, h);
    assert forall|x: Seq<char>, y: Seq<char>|
        g2.dom().contains(x) && g2.dom().contains(y) && is_hidden(y, kept) && x != y
            && #[trigger] g2[x].enables_features.contains(y) implies #[trigger] g2[y].enabled_by.contains(
        x,
    ) by {
        lemma_without_hidden_fields(g, h, x);
        lemma_without_hidden_fields(g, h, y);
        if g[x].enables_features.contains(y) {
            assert(g[y].enabled_by.contains(x));
        } else {
            assert(hf.enabled_by.contains(x) && hf.enables_features.contains(y));
        }
    }
    assert forall|x: Seq<char>, y: Seq<char>|
        g2.dom().contains(x) && gone.insert(h).contains(y) implies !(
        #[trigger] g2[x].enables_features.contains(y)) by {
        lemma_without_hidden_fields(g, h, x);
        if y == h {
            if g[x].enables_features.contains(h) {
                assert(g[h].enabled_by.contains(x));
            }
        } else {
            assert(!g[x].enables_features.contains(y));
            assert(!g[h].enables_features.contains(y));
        }
    }
}

/// Whether the keys are hidden features of the graph, each named once.
pub open spec fn hidden_run(g: GraphView, kept: Set<Seq<char>>, keys: Seq<Seq<char>>) -> bool {
    &&& keys.no_duplicates()
    &&& forall|i: int| 0 <= i < keys.len() ==> g.dom().contains(#[trigger] keys[i]) && is_hidden(
        keys[i],
        kept,
    )
}

/// The elements of a sequence are those of all but its last, and its last.
pub proof fn lemma_to_set_drop_last(keys: Seq<Seq<char>>)
    requires
        keys.len() > 0,
    ensures
        keys.to_set() == keys.drop_last().to_set().insert(keys.last()),
{
    assert forall|x: Seq<char>| keys.to_set().contains(x) == keys.drop_last().to_set().insert(
        keys.last(),
    ).contains(x) by {
        if keys.to_set().contains(x) {
            let i = choose|i: int| 0 <= i < keys.len() && keys[i] == x;
            if i < keys.len() - 1 {
                assert(keys.drop_last()[i] == x);
            }
        }
        if keys.drop_last().to_set().contains(x) {
            let i = choose|i: int| 0 <= i < keys.drop_last().len() && keys.drop_last()[i] == x;
            assert(keys[i] == x);
        }
        if x == keys.last() {
            assert(keys[keys.len() - 1] == x);
        }
    }
    assert(keys.to_set() =~= keys.drop_last().to_set().insert(keys.last()));
}

/// The features that are left after hidden ones are taken out are those that were not
/// taken out; the last to go was still there when its turn came.
pub proof fn lemma_run_step(g: GraphView, kept: Set<Seq<char>>, keys: Seq<Seq<char>>)
    requires
        well_keyed(g),
        hidden_run(g, kept, keys),
        keys.len() > 0,
    ensures
        hidden_run(g, kept, keys.drop_last()),
        well_keyed(without_all(g, keys.drop_last())),
        without_all(g, keys.drop_last()).dom().contains(keys.last()),
{
    let p = keys.drop_last();
    assert forall|i: int| 0 <= i < p.len() implies g.dom().contains(#[trigger] p[i]) && is_hidden(
        p[i],
        kept,
    ) by {
        assert(p[i] == keys[i]);
    }
    assert(p.no_duplicates()) by {
        assert forall|i: int, j: int| 0 <= i < p.len() && 0 <= j < p.len() && i != j implies p[i]
            != p[j] by {
            assert(p[i] == keys[i] && p[j] == keys[j]);
        }
    }
    lemma_without_all_well_keyed(g, p);
    assert(g.dom().contains(keys[keys.len() - 1]));
    if p.to_set().contains(keys.last()) {
        let i = choose|i: int| 0 <= i < p.len() && p[i] == keys.last();
        assert(keys[i] == keys[keys.len() - 1]);
    }
}

/// After hidden features are taken out of a graph in which those that switch them on
/// were known to them, no feature that is left switches on, as a feature, one that
/// was taken out.
pub proof fn lemma_no_edge_to_removed(g: GraphView, kept: Set<Seq<char>>, keys: Seq<Seq<char>>)
    requires
        well_keyed(g),
        parents_known(g, kept),
        hidden_run(g, kept, keys),
    ensures
        parents_known(without_all(g, keys), kept),
        no_edge_to(without_all(g, keys), keys.to_set()),
    decreases keys.len(),
{
    if keys.len() == 0 {
        assert(keys.to_set() =~= Set::<Seq<char>>::empty());
    } else {
        lemma_run_step(g, kept, keys);
        lemma_no_edge_to_removed(g, kept, keys.drop_last());
        lemma_step_features(
            without_all(g, keys.drop_last()),
            kept,
            keys.drop_last().to_set(),
            keys.last(),
        );
        lemma_to_set_drop_last(keys);
    }
}

/// Something that a feature may switch on: a feature or a dependency of some name.
pub enum Goal {
    Feature(Seq<char>),
    Dependency(Seq<char>),
}

impl Goal {
    /// The name of what is switched on.
    pub open spec fn name(self) -> Seq<char> {
        match self {
            Goal::Feature(t) => t,
            Goal::Dependency(d) => d,
        }
    }

    /// Whether the feature switches it on itself.
    pub open spec fn met_by(self, f: FeatureView) -> bool {
        match self {
            Goal::Feature(t) => f.enables_features.contains(t),
            Goal::Dependency(d) => f.enables_deps.dom().contains(d),
        }
    }
}

/// Whether the feature under `x` switches the goal on itself, or through hidden
/// features of the graph only, at most `n` of them in a row.
pub open spec fn reaches(g: GraphView, kept: Set<Seq<char>>, x: Seq<char>, goal: Goal, n: nat) -> bool
    decreases n,
{
    goal.met_by(g[x]) || (n > 0 && exists|h: Seq<char>|
        #[trigger] g[x].enables_features.contains(h) && g.dom().contains(h) && is_hidden(h, kept)
            && reaches(g, kept, h, goal, (n - 1) as nat))
}

/// What is reached through at most `n` hidden features is reached through at most
/// `n + 1`.
pub proof fn lemma_reaches_longer(g: GraphView, kept: Set<Seq<char>>, x: Seq<char>, goal: Goal, n: nat)
    requires
        reaches(g, kept, x, goal, n),
    ensures
        reaches(g, kept, x, goal, n + 1),
    decreases n,
{
    if !goal.met_by(g[x]) {
        let h = choose|h: Seq<char>|
            #[trigger] g[x].enables_features.contains(h) && g.dom().contains(h) && is_hidden(h, kept)
                && reaches(g, kept, h, goal, (n - 1) as nat);
        lemma_reaches_longer(g, kept, h, goal, (n - 1) as nat);
        assert(reaches(g, kept, h, goal, n));
    }
}

/// Taking a hidden feature out leaves everything reached that is not named like it.
pub proof fn lemma_step_reaches(
    g: GraphView,
    kept: Set<Seq<char>>,
    h: Seq<char>,
    x: Seq<char>,
    goal: Goal,
    n: nat,
)
    requires
        well_keyed(g),
        parents_known(g, kept),
        g.dom().contains(h),
        is_hidden(h, kept),
        g.dom().contains(x),
        x != h,
        goal.name() != h,
        reaches(g, kept, x, goal, n),
    ensures
        reaches(without_hidden(g, h), kept, x, goal, n),
    decreases n, 1nat,
{
    let g2 = without_hidden(g, h);
    lemma_without_hidden_fields(g, h, x);
    lemma_without_hidden_well_keyed(g, h);
    if goal.met_by(g[x]) {
        assert(goal.met_by(g2[x]));
    } else {
        let h1 = choose|h1: Seq<char>|
            #[trigger] g[x].enables_features.contains(h1) && g.dom().contains(h1) && is_hidden(
                h1,
                kept,
            ) && reaches(g, kept, h1, goal, (n - 1) as nat);
        if h1 != h {
            lemma_step_reaches(g, kept, h, h1, goal, (n - 1) as nat);
            assert(g2[x].enables_features.contains(h1));
            assert(g2.dom().contains(h1));
        } else {
            assert(g[h].enabled_by.contains(x));
            lemma_step_through(g, kept, h, x, goal, (n - 1) as nat);
            lemma_reaches_longer(g2, kept, x, goal, (n - 1) as nat);
        }
    }
}

/// A feature that switched a hidden feature on reaches, when that one is taken out,
/// what that one reached.
pub proof fn lemma_step_through(
    g: GraphView,
    kept: Set<Seq<char>>,
    h: Seq<char>,
    x: Seq<char>,
    goal: Goal,
    m: nat,
)
    requires
        well_keyed(g),
        parents_known(g, kept),
        g.dom().contains(h),
        is_hidden(h, kept),
        g.dom().contains(x),
        x != h,
        goal.name() != h,
        g[h].enabled_by.contains(x),
        reaches(g, kept, h, goal, m),
    ensures
        reaches(without_hidden(g, h), kept, x, goal, m),
    decreases m, 0nat,
{
    let g2 = without_hidden(g, h);
    lemma_without_hidden_fields(g, h, x);
    lemma_without_hidden_well_keyed(g, h);
    if goal.met_by(g[h]) {
        assert(goal.met_by(g2[x]));
    } else {
        let h2 = choose|h2: Seq<char>|
            #[trigger] g[h].enables_features.contains(h2) && g.dom().contains(h2) && is_hidden(
                h2,
                kept,
            ) && reaches(g, kept, h2, goal, (m - 1) as nat);
        if h2 != h {
            lemma_step_reaches(g, kept, h, h2, goal, (m - 1) as nat);
            assert(g2[x].enables_features.contains(h2));
            assert(g2.dom().contains(h2));
        } else {
            lemma_step_through(g, kept, h, x, goal, (m - 1) as nat);
            lemma_reaches_longer(g2, kept, x, goal, (m - 1) as nat);
        }
    }
}

/// Taking hidden features out one after the other leaves everything reached that is
/// not named like one of them.
pub proof fn lemma_run_reaches(
    g: GraphView,
    kept: Set<Seq<char>>,
    keys: Seq<Seq<char>>,
    x: Seq<char>,
    goal: Goal,
    n: nat,
)
    requires
        well_keyed(g),
        parents_known(g, kept),
        hidden_run(g, kept, keys),
        g.dom().contains(x),
        !keys.contains(x),
        !keys.contains(goal.name()),
        reaches(g, kept, x, goal, n),
    ensures
        reaches(without_all(g, keys), kept, x, goal, n),
        without_all(g, keys).dom().contains(x),
    decreases keys.len(),
{
    if keys.len() > 0 {
        let p = keys.drop_last();
        lemma_run_step(g, kept, keys);
        assert(!p.contains(x)) by {
            if p.contains(x) {
                let i = choose|i: int| 0 <= i < p.len() && p[i] == x;
                assert(keys[i] == x);
            }
        }
        assert(!p.contains(goal.name())) by {
            if p.contains(goal.name()) {
                let i = choose|i: int| 0 <= i < p.len() && p[i] == goal.name();
                assert(keys[i] == goal.name());
            }
        }
        assert(keys[keys.len() - 1] == keys.last());
        lemma_run_reaches(g, kept, p, x, goal, n);
        lemma_no_edge_to_removed(g, kept, p);
        lemma_step_reaches(without_all(g, p), kept, keys.last(), x, goal, n);
        lemma_without_hidden_fields(without_all(g, p), keys.last(), x);
    }
}

/// Reachability is kept: whatever a feature that is not hidden switched on through
/// hidden features only, be it a feature or a dependency, it switches on itself once
/// the hidden features are taken out, unless that is named like a hidden feature of
/// the graph. This holds of every graph in which the features that switch a hidden
/// one on are known to it, as they are in a graph that was linked.
pub proof fn lemma_reachability_kept(
    g: GraphView,
    kept: Set<Seq<char>>,
    x: Seq<char>,
    goal: Goal,
    n: nat,
)
    requires
        well_keyed(g),
        parents_known(g, kept),
        g.dom().contains(x),
        !is_hidden(x, kept),
        !hidden_keys(g, kept).contains(goal.name()),
        reaches(g, kept, x, goal, n),
    ensures
        without_all(g, sorted_seq(hidden_keys(g, kept))).dom().contains(x),
        goal.met_by(without_all(g, sorted_seq(hidden_keys(g, kept)))[x]),
{
    let keys = sorted_seq(hidden_keys(g, kept));
    lemma_hidden_keys_ordered(g, kept);
    assert(hidden_run(g, kept, keys)) by {
        assert forall|i: int| 0 <= i < keys.len() implies g.dom().contains(#[trigger] keys[i])
            && is_hidden(keys[i], kept) by {
            assert(keys.to_set().contains(keys[i]));
        }
    }
    assert(!keys.contains(x)) by {
        if keys.contains(x) {
            assert(keys.to_set().contains(x));
        }
    }
    assert(!keys.contains(goal.name())) by {
        if keys.contains(goal.name()) {
            assert(keys.to_set().contains(goal.name()));
        }
    }
    lemma_run_reaches(g, kept, keys, x, goal, n);
    let g2 = without_all(g, keys);
    lemma_without_all_well_keyed(g, keys);
    if !goal.met_by(g2[x]) {
        let h = choose|h: Seq<char>|
            #[trigger] g2[x].enables_features.contains(h) && g2.dom().contains(h) && is_hidden(h, kept)
                && reaches(g2, kept, h, goal, (n - 1) as nat);
        assert(g.dom().contains(h));
        assert(hidden_keys(g, kept).contains(h));
        assert(keys.to_set().contains(h));
    }
}

/// Whether the actions on the names of hidden features are plain: where a feature has
/// an action on the name of another feature, and that one is hidden, the action is
/// neither conditional nor dependency-only, unless the one switches the other on as a
/// feature as well.
pub open spec fn plain_on_hidden(g: GraphView, kept: Set<Seq<char>>) -> bool {
    forall|f: Seq<char>, d: Seq<char>|
        g.dom().contains(f) && g.dom().contains(d) && is_hidden(d, kept) && f != d
            && #[trigger] g[f].enables_deps.dom().contains(d) ==> plainly_enables(g[f], d)
}

/// Whether the dependency-only actions of hidden features are doubled: where a hidden
/// feature has a dependency-only action on the name of another feature, it switches
/// that one on as a feature as well.
pub open spec fn hidden_dep_only_doubled(g: GraphView, kept: Set<Seq<char>>) -> bool {
    forall|f: Seq<char>, d: Seq<char>|
        g.dom().contains(f) && g.dom().contains(d) && is_hidden(f, kept) && f != d
            && #[trigger] g[f].enables_deps.dom().contains(d) && g[f].enables_deps[d].is_dep_only
            ==> g[f].enables_features.contains(d)
}

/// Whether every feature that has an action on the name of a hidden feature is known
/// to that feature.
pub open spec fn dep_parents_known(g: GraphView, kept: Set<Seq<char>>) -> bool {
    forall|x: Seq<char>, y: Seq<char>|
        g.dom().contains(x) && g.dom().contains(y) && is_hidden(y, kept) && x != y
            && #[trigger] g[x].enables_deps.dom().contains(y) ==> #[trigger] g[y].enabled_by.contains(
            x,
        )
}

/// Whether every hidden feature that is said to switch another feature on does so, as
/// a feature or by a plain action.
pub open spec fn enablers_justified(g: GraphView, kept: Set<Seq<char>>) -> bool {
    forall|x: Seq<char>, y: Seq<char>|
        g.dom().contains(x) && g.dom().contains(y) && is_hidden(x, kept) && x != y
            && #[trigger] g[y].enabled_by.contains(x) ==> #[trigger] g[x].enables_features.contains(y)
            || plain_deps(g[x]).contains(y)
}

/// Whether no feature has an action on any name of `gone`.
pub open spec fn no_action_on(g: GraphView, gone: Set<Seq<char>>) -> bool {
    forall|x: Seq<char>, y: Seq<char>|
        g.dom().contains(x) && gone.contains(y) ==> !(#[trigger] g[x].enables_deps.dom().contains(y))
}

/// Whether no feature is said to be switched on by any name of `gone`.
pub open spec fn not_enabled_by(g: GraphView, gone: Set<Seq<char>>) -> bool {
    forall|x: Seq<char>, y: Seq<char>|
        g.dom().contains(x) && gone.contains(y) ==> !(#[trigger] g[x].enabled_by.contains(y))
}

/// Whether the actions of the graph are in the state that taking hidden features out
/// keeps them in: a hidden feature knows the features that have an action on its name,
/// those actions are plain, and no action is left on a name of `gone`.
pub open spec fn actions_tidy(g: GraphView, kept: Set<Seq<char>>, gone: Set<Seq<char>>) -> bool {
    &&& dep_parents_known(g, kept)
    &&& plain_on_hidden(g, kept)
    &&& no_action_on(g, gone)
}

/// Whether what the graph says of who switches a feature on is in the state that
/// taking hidden features out keeps it in: what a hidden feature is said to switch on
/// it does switch on, its dependency-only actions are doubled, and no name of `gone`
/// is left.
pub open spec fn enablers_tidy(g: GraphView, kept: Set<Seq<char>>, gone: Set<Seq<char>>) -> bool {
    &&& enablers_justified(g, kept)
    &&& hidden_dep_only_doubled(g, kept)
    &&& not_enabled_by(g, gone)
}

/// Taking a hidden feature out of a graph whose actions are tidy leaves them tidy,
/// with no action on the name of that feature.
pub proof fn lemma_step_actions_tidy(
    g: GraphView,
    kept: Set<Seq<char>>,
    gone: Set<Seq<char>>,
    h: Seq<char>,
)
    requires
        well_keyed(g),
        actions_tidy(g, kept, gone),
        g.dom().contains(h),
        is_hidden(h, kept),
    ensures
        actions_tidy(without_hidden(g, h), kept, gone.insert(h)),
{
    let g2 = without_hidden(g, h);
    let hf = g[h];
    lemma_without_hidden_well_keyed(g, h);
    assert(plain_on_hidden(g2, kept)) by {
        assert forall|f: Seq<char>, d: Seq<char>|
            g2.dom().contains(f) && g2.dom().contains(d) && is_hidden(d, kept) && f != d
                && #[trigger] g2[f].enables_deps.dom().contains(d) implies plainly_enables(g2[f], d) by {
            lemma_without_hidden_fields(g, h, f);
            if g[f].enables_deps.dom().contains(d) {
                assert(plainly_enables(g[f], d));
            }
            if hf.enables_deps.dom().contains(d) {
                assert(g[h].enables_deps.dom().contains(d));
                assert(plainly_enables(g[h], d));
            }
        }
    }
    assert(dep_parents_known(g2, kept)) by {
        assert forall|x: Seq<char>, y: Seq<char>|
            g2.dom().contains(x) && g2.dom().contains(y) && is_hidden(y, kept) && x != y
                && #[trigger] g2[x].enables_deps.dom().contains(y) implies #[trigger] g2[y].enabled_by.contains(
            x,
        ) by {
            lemma_without_hidden_fields(g, h, x);
            lemma_without_hidden_fields(g, h, y);
            if g[x].enables_deps.dom().contains(y) {
                assert(g[y].enabled_by.contains(x));
            } else {
                assert(hf.enabled_by.contains(x));
                assert(g[h].enables_deps.dom().contains(y));
                assert(plainly_enables(g[h], y));
            }
        }
    }
    assert(no_action_on(g2, gone.insert(h))) by {
        assert forall|x: Seq<char>, y: Seq<char>|
            g2.dom().contains(x) && gone.insert(h).contains(y) implies !(
            #[trigger] g2[x].enables_deps.dom().contains(y)) by {
            lemma_without_hidden_fields(g, h, x);
            if y == h {
                if g[x].enables_deps.dom().contains(h) {
                    assert(g[h].enabled_by.contains(x));
                }
            } else {
                assert(!g[x].enables_deps.dom().contains(y));
                assert(!g[h].enables_deps.dom().contains(y));
            }
        }
    }
}

/// Taking a hidden feature out of a graph in which what switches a feature on is tidy
/// leaves it tidy, with no feature said to be switched on by that feature.
pub proof fn lemma_step_enablers_tidy(
    g: GraphView,
    kept: Set<Seq<char>>,
    gone: Set<Seq<char>>,
    h: Seq<char>,
)
    requires
        well_keyed(g),
        enablers_tidy(g, kept, gone),
        g.dom().contains(h),
        is_hidden(h, kept),
    ensures
        enablers_tidy(without_hidden(g, h), kept, gone.insert(h)),
{
    let g2 = without_hidden(g, h);
    let hf = g[h];
    lemma_without_hidden_well_keyed(g, h);
    assert(hidden_dep_only_doubled(g2, kept)) by {
        assert forall|f: Seq<char>, d: Seq<char>|
            g2.dom().contains(f) && g2.dom().contains(d) && is_hidden(f, kept) && f != d
                && #[trigger] g2[f].enables_deps.dom().contains(d)
                && g2[f].enables_deps[d].is_dep_only implies g2[f].enables_features.contains(d) by {
            lemma_without_hidden_fields(g, h, f);
            if g[f].enables_deps.dom().contains(d) && g[f].enables_deps[d].is_dep_only {
                assert(g[f].enables_features.contains(d));
            } else {
                assert(hf.enabled_by.contains(f));
                assert(g[h].enables_deps.dom().contains(d));
                assert(g[h].enables_deps[d].is_dep_only);
                assert(g[h].enables_features.contains(d));
            }
        }
    }
    assert(enablers_justified(g2, kept)) by {
        assert forall|x: Seq<char>, y: Seq<char>|
            g2.dom().contains(x) && g2.dom().contains(y) && is_hidden(x, kept) && x != y
                && #[trigger] g2[y].enabled_by.contains(x) implies #[trigger] g2[x].enables_features.contains(
            y,
        ) || plain_deps(g2[x]).contains(y) by {
            lemma_without_hidden_fields(g, h, x);
            lemma_without_hidden_fields(g, h, y);
            if g[y].enabled_by.contains(x) {
                if g[x].enables_features.contains(y) {
                } else {
                    assert(plain_deps(g[x]).contains(y));
                    assert(g[x].enables_deps.dom().contains(y));
                    if hf.enabled_by.contains(x) && hf.enables_deps.dom().contains(y) {
                        assert(g[h].enables_deps.dom().contains(y));
                        if g[h].enables_deps[y].is_dep_only {
                            assert(g[h].enables_features.contains(y));
                        }
                    }
                }
            } else {
                assert(hf.enabled_by.contains(x));
                if hf.enables_features.contains(y) {
                    assert(g2[x].enables_features.contains(y));
                } else {
                    assert(plain_deps(hf).contains(y));
                    assert(g[h].enables_deps.dom().contains(y));
                    if g[x].enables_deps.dom().contains(y) && g[x].enables_deps[y].is_dep_only {
                        assert(g[x].enables_features.contains(y));
                    }
                }
            }
        }
    }
    assert(not_enabled_by(g2, gone.insert(h))) by {
        assert forall|x: Seq<char>, y: Seq<char>|
            g2.dom().contains(x) && gone.insert(h).contains(y) implies !(
            #[trigger] g2[x].enabled_by.contains(y)) by {
            lemma_without_hidden_fields(g, h, x);
            if y == h {
                if g[x].enabled_by.contains(h) {
                    assert(g[h].enables_features.contains(x) || plain_deps(g[h]).contains(x));
                }
            } else {
                assert(!g[x].enabled_by.contains(y));
                assert(!g[h].enabled_by.contains(y));
            }
        }
    }
}

/// Taking hidden features out one after the other leaves the actions tidy, with none
/// on their names.
pub proof fn lemma_run_actions_tidy(g: GraphView, kept: Set<Seq<char>>, keys: Seq<Seq<char>>)
    requires
        well_keyed(g),
        actions_tidy(g, kept, Set::empty()),
        hidden_run(g, kept, keys),
    ensures
        actions_tidy(without_all(g, keys), kept, keys.to_set()),
    decreases keys.len(),
{
    if keys.len() == 0 {
        assert(keys.to_set() =~= Set::<Seq<char>>::empty());
    } else {
        lemma_run_step(g, kept, keys);
        lemma_run_actions_tidy(g, kept, keys.drop_last());
        lemma_step_actions_tidy(
            without_all(g, keys.drop_last()),
            kept,
            keys.drop_last().to_set(),
            keys.last(),
        );
        lemma_to_set_drop_last(keys);
    }
}

/// Taking hidden features out one after the other leaves tidy what the graph says of
/// who switches a feature on, with none of their names in it.
pub proof fn lemma_run_enablers_tidy(g: GraphView, kept: Set<Seq<char>>, keys: Seq<Seq<char>>)
    requires
        well_keyed(g),
        enablers_tidy(g, kept, Set::empty()),
        hidden_run(g, kept, keys),
    ensures
        enablers_tidy(without_all(g, keys), kept, keys.to_set()),
    decreases keys.len(),
{
    if keys.len() == 0 {
        assert(keys.to_set() =~= Set::<Seq<char>>::empty());
    } else {
        lemma_run_step(g, kept, keys);
        lemma_run_enablers_tidy(g, kept, keys.drop_last());
        lemma_step_enablers_tidy(
            without_all(g, keys.drop_last()),
            kept,
            keys.drop_last().to_set(),
            keys.last(),
        );
        lemma_to_set_drop_last(keys);
    }
}

/// The actions of a graph that was linked are tidy where those on the names of hidden
/// features are plain.
pub proof fn lemma_linked_actions_tidy(g: GraphView, kept: Set<Seq<char>>)
    requires
        plain_on_hidden(g, kept),
    ensures
        actions_tidy(linked(g), kept, Set::empty()),
{
    let l = linked(g);
    assert(plain_on_hidden(l, kept)) by {
        assert forall|f: Seq<char>, d: Seq<char>|
            l.dom().contains(f) && l.dom().contains(d) && is_hidden(d, kept) && f != d
                && #[trigger] l[f].enables_deps.dom().contains(d) implies plainly_enables(l[f], d) by {
            assert(l[f].enables_deps == g[f].enables_deps);
            assert(l[f].enables_features == g[f].enables_features);
            assert(g[f].enables_deps.dom().contains(d));
        }
    }
    assert(dep_parents_known(l, kept)) by {
        assert forall|x: Seq<char>, y: Seq<char>|
            l.dom().contains(x) && l.dom().contains(y) && is_hidden(y, kept) && x != y
                && #[trigger] l[x].enables_deps.dom().contains(y) implies #[trigger] l[y].enabled_by.contains(
            x,
        ) by {
            assert(l[x].enables_deps == g[x].enables_deps);
            assert(g[x].enables_deps.dom().contains(y));
            assert(plainly_enables(g[x], y));
            assert(enablers(g, y).contains(x));
        }
    }
}

/// What a graph that was linked says of who switches a feature on is tidy where the
/// dependency-only actions of hidden features are doubled.
pub proof fn lemma_linked_enablers_tidy(g: GraphView, kept: Set<Seq<char>>)
    requires
        hidden_dep_only_doubled(g, kept),
    ensures
        enablers_tidy(linked(g), kept, Set::empty()),
{
    let l = linked(g);
    assert(hidden_dep_only_doubled(l, kept)) by {
        assert forall|f: Seq<char>, d: Seq<char>|
            l.dom().contains(f) && l.dom().contains(d) && is_hidden(f, kept) && f != d
                && #[trigger] l[f].enables_deps.dom().contains(d)
                && l[f].enables_deps[d].is_dep_only implies l[f].enables_features.contains(d) by {
            assert(l[f].enables_deps == g[f].enables_deps);
            assert(l[f].enables_features == g[f].enables_features);
            assert(g[f].enables_deps.dom().contains(d));
        }
    }
    assert(enablers_justified(l, kept)) by {
        assert forall|x: Seq<char>, y: Seq<char>|
            l.dom().contains(x) && l.dom().contains(y) && is_hidden(x, kept) && x != y
                && #[trigger] l[y].enabled_by.contains(x) implies #[trigger] l[x].enables_features.contains(
            y,
        ) || plain_deps(l[x]).contains(y) by {
            assert(l[x].enables_features == g[x].enables_features);
            assert(l[x].enables_deps == g[x].enables_deps);
            assert(enablers(g, y).contains(x));
        }
    }
}

/// The hidden features of a graph that was linked, in the order in which they are
/// taken out, are a run of hidden features of it.
proof fn lemma_linked_run(g: GraphView, kept: Set<Seq<char>>)
    requires
        well_keyed(g),
    ensures
        well_keyed(linked(g)),
        hidden_keys(linked(g), kept) == hidden_keys(g, kept),
        hidden_run(linked(g), kept, sorted_seq(hidden_keys(linked(g), kept))),
        sorted_seq(hidden_keys(linked(g), kept)).to_set() == hidden_keys(g, kept),
{
    let l = linked(g);
    assert(l.dom() =~= g.dom());
    assert(well_keyed(l));
    assert(hidden_keys(l, kept) =~= hidden_keys(g, kept));
    let keys = sorted_seq(hidden_keys(l, kept));
    lemma_hidden_keys_ordered(l, kept);
    assert forall|i: int| 0 <= i < keys.len() implies l.dom().contains(#[trigger] keys[i])
        && is_hidden(keys[i], kept) by {
        assert(keys.to_set().contains(keys[i]));
    }
}

/// No action is left on the name of a hidden feature: after the hidden features are
/// taken out of a graph that was linked, no feature that is left has an action on the
/// name of one of them. This holds where the actions on the names of hidden features
/// are plain.
pub proof fn lemma_hidden_action_keys_gone(
    g: GraphView,
    kept: Set<Seq<char>>,
    x: Seq<char>,
    h: Seq<char>,
)
    requires
        well_keyed(g),
        plain_on_hidden(g, kept),
        hidden_keys(g, kept).contains(h),
        without_all(linked(g), sorted_seq(hidden_keys(linked(g), kept))).dom().contains(x),
    ensures
        !without_all(linked(g), sorted_seq(hidden_keys(linked(g), kept)))[x].enables_deps.dom().contains(
            h,
        ),
{
    let l = linked(g);
    let keys = sorted_seq(hidden_keys(l, kept));
    lemma_linked_run(g, kept);
    lemma_linked_actions_tidy(g, kept);
    lemma_run_actions_tidy(l, kept, keys);
    assert(keys.to_set().contains(h));
}

/// No hidden feature is left among those that switch a feature on: after the hidden
/// features are taken out of a graph that was linked, no feature that is left is said
/// to be switched on by one of them. This holds where the dependency-only actions of
/// hidden features are doubled.
pub proof fn lemma_hidden_enablers_gone(g: GraphView, kept: Set<Seq<char>>, x: Seq<char>, h: Seq<char>)
    requires
        well_keyed(g),
        hidden_dep_only_doubled(g, kept),
        hidden_keys(g, kept).contains(h),
        without_all(linked(g), sorted_seq(hidden_keys(linked(g), kept))).dom().contains(x),
    ensures
        !without_all(linked(g), sorted_seq(hidden_keys(linked(g), kept)))[x].enabled_by.contains(h),
{
    let l = linked(g);
    let keys = sorted_seq(hidden_keys(l, kept));
    lemma_linked_run(g, kept);
    lemma_linked_enablers_tidy(g, kept);
    lemma_run_enablers_tidy(l, kept, keys);
    assert(keys.to_set().contains(h));
}

/// No feature that is left switches on, as a feature, a hidden feature that was taken
/// out. This holds of every graph in which the features that switch a hidden one on
/// are known to it, as they are in a graph that was linked.
pub proof fn lemma_hidden_features_unreferenced(
    g: GraphView,
    kept: Set<Seq<char>>,
    x: Seq<char>,
    h: Seq<char>,
)
    requires
        well_keyed(g),
        parents_known(g, kept),
        hidden_keys(g, kept).contains(h),
        without_all(g, sorted_seq(hidden_keys(g, kept))).dom().contains(x),
    ensures
        x != h,
        !is_hidden(x, kept),
        !without_all(g, sorted_seq(hidden_keys(g, kept)))[x].enables_features.contains(h),
{
    let keys = sorted_seq(hidden_keys(g, kept));
    lemma_hidden_keys_ordered(g, kept);
    assert(hidden_run(g, kept, keys)) by {
        assert forall|i: int| 0 <= i < keys.len() implies g.dom().contains(#[trigger] keys[i])
            && is_hidden(keys[i], kept) by {
            assert(keys.to_set().contains(keys[i]));
        }
    }
    lemma_no_edge_to_removed(g, kept, keys);
    lemma_without_all_well_keyed(g, keys);
    assert(keys.to_set().contains(h));
    if is_hidden(x, kept) {
        assert(hidden_keys(g, kept).contains(x));
    }
}

/// In the graph that the resolver hands back, no feature has an action on the name of
/// a hidden feature that was taken out. This holds where the actions on the names of
/// hidden features are plain, in what [`crate::features::resolve::gathered`] or
/// [`crate::features::resolve::gathered_custom`] gathers.
pub proof fn lemma_finished_hidden_action_keys_gone(
    g: GraphView,
    deps: DepsView,
    kept: Set<Seq<char>>,
    x: Seq<char>,
    h: Seq<char>,
)
    requires
        well_keyed(g),
        plain_on_hidden(g, kept),
        hidden_keys(g, kept).contains(h),
        finished(g, deps, kept).features.dom().contains(x),
    ensures
        !finished(g, deps, kept).features[x].enables_deps.dom().contains(h),
{
    let p = pruned(g, deps);
    lemma_linked_pruned_well_keyed(g, deps);
    assert(plain_on_hidden(p, kept)) by {
        assert forall|f: Seq<char>, d: Seq<char>|
            p.dom().contains(f) && p.dom().contains(d) && is_hidden(d, kept) && f != d
                && #[trigger] p[f].enables_deps.dom().contains(d) implies plainly_enables(p[f], d) by {
            assert(g[f].enables_deps.dom().contains(d));
            assert(plainly_enables(g[f], d));
        }
    }
    assert(hidden_keys(p, kept) =~= hidden_keys(g, kept));
    lemma_hidden_action_keys_gone(p, kept, x, h);
}

/// In the graph that the resolver hands back, no feature is said to be switched on by
/// a hidden feature that was taken out. This holds where the dependency-only actions
/// of hidden features are doubled, in what [`crate::features::resolve::gathered`] or
/// [`crate::features::resolve::gathered_custom`] gathers.
pub proof fn lemma_finished_hidden_enablers_gone(
    g: GraphView,
    deps: DepsView,
    kept: Set<Seq<char>>,
    x: Seq<char>,
    h: Seq<char>,
)
    requires
        well_keyed(g),
        hidden_dep_only_doubled(g, kept),
        hidden_keys(g, kept).contains(h),
        finished(g, deps, kept).features.dom().contains(x),
    ensures
        !finished(g, deps, kept).features[x].enabled_by.contains(h),
{
    let p = pruned(g, deps);
    lemma_linked_pruned_well_keyed(g, deps);
    assert(hidden_dep_only_doubled(p, kept)) by {
        assert forall|f: Seq<char>, d: Seq<char>|
            p.dom().contains(f) && p.dom().contains(d) && is_hidden(f, kept) && f != d
                && #[trigger] p[f].enables_deps.dom().contains(d)
                && p[f].enables_deps[d].is_dep_only implies p[f].enables_features.contains(d) by {
            assert(g[f].enables_deps.dom().contains(d));
        }
    }
    assert(hidden_keys(p, kept) =~= hidden_keys(g, kept));
    lemma_hidden_enablers_gone(p, kept, x, h);
}

/// In the graph that the resolver hands back, no feature switches on, as a feature, a
/// hidden feature that was taken out.
pub proof fn lemma_finished_hidden_features_unreferenced(
    g: GraphView,
    deps: DepsView,
    kept: Set<Seq<char>>,
    x: Seq<char>,
    h: Seq<char>,
)
    requires
        well_keyed(g),
        hidden_keys(g, kept).contains(h),
        finished(g, deps, kept).features.dom().contains(x),
    ensures
        x != h,
        !is_hidden(x, kept),
        !finished(g, deps, kept).features[x].enables_features.contains(h),
{
    let p = pruned(g, deps);
    lemma_linked_pruned_well_keyed(g, deps);
    lemma_linked_pruned_well_keyed(p, deps);
    let l = linked(p);
    lemma_linked_parents_known(p, kept);
    assert(hidden_keys(l, kept) =~= hidden_keys(g, kept));
    lemma_hidden_features_unreferenced(l, kept, x, h);
}

/// In the graph that the resolver hands back, a feature that is not hidden switches
/// on itself whatever it switched on through hidden features only before they were
/// taken out, be it a feature or a dependency, unless that is named like a hidden
/// feature that was taken out.
pub proof fn lemma_finished_reachability_kept(
    g: GraphView,
    deps: DepsView,
    kept: Set<Seq<char>>,
    x: Seq<char>,
    goal: Goal,
    n: nat,
)
    requires
        well_keyed(g),
        g.dom().contains(x),
        !is_hidden(x, kept),
        !hidden_keys(g, kept).contains(goal.name()),
        reaches(before_inlining(g, deps), kept, x, goal, n),
    ensures
        finished(g, deps, kept).features.dom().contains(x),
        goal.met_by(finished(g, deps, kept).features[x]),
{
    let p = pruned(g, deps);
    lemma_linked_pruned_well_keyed(g, deps);
    lemma_linked_pruned_well_keyed(p, deps);
    let l = linked(p);
    lemma_linked_parents_known(p, kept);
    assert(hidden_keys(l, kept) =~= hidden_keys(g, kept));
    lemma_reachability_kept(l, kept, x, goal, n);
}

} // verus!
