//! Choosing the hidden features to keep by a function of their names.

use vstd::prelude::*;
use crate::features::{ParseDependency, Resolver};
use crate::manifest::{Manifest, Target};
use crate::strmap::StrMap;
use crate::strset::StrSet;
use crate::order::{sorted_seq, lemma_sorted_seq_dom, lemma_take_push_set};
use crate::text::{has_hidden_marker, is_hidden_name};

verus! {

broadcast use vstd::string::group_string_axioms;

/// Whether the function, asked about the name, may answer `answer`.
pub open spec fn answers<F: Fn(&str) -> bool>(f: &F, name: Seq<char>, answer: bool) -> bool {
    exists|s: &str| s@ == name && #[trigger] call_ensures(*f, (s,), answer)
}

/// The names of `keys` that begin with `_` and that the function wants kept, added
/// to `keep`.
fn keep_of<V, F: Fn(&str) -> bool>(keys: &StrMap<V>, f: &F, keep: &mut StrSet)
    requires
        forall|s: &str| call_requires(*f, (s,)),
    ensures
        old(keep)@.subset_of(final(keep)@),
        forall|k: Seq<char>| #[trigger]
            final(keep)@.contains(k) && !old(keep)@.contains(k) ==> keys@.dom().contains(k)
                && has_hidden_marker(k) && answers(f, k, true),
        forall|k: Seq<char>| #[trigger]
            keys@.dom().contains(k) && has_hidden_marker(k) && !final(keep)@.contains(k) ==> answers(
                f,
                k,
                false,
            ),
{
    let n = keys.len();
    let ghost ks = sorted_seq(keys@.dom());
    proof {
        lemma_sorted_seq_dom(keys@.dom());
    }
    let mut i: usize = 0;
    while i < n
        invariant
            i <= n,
            n == ks.len(),
            ks == sorted_seq(keys@.dom()),
            ks.to_set() == keys@.dom(),
            forall|s: &str| call_requires(*f, (s,)),
            old(keep)@.subset_of(keep@),
            forall|k: Seq<char>| #[trigger]
                keep@.contains(k) && !old(keep)@.contains(k) ==> keys@.dom().contains(k)
                    && has_hidden_marker(k) && answers(f, k, true),
            forall|k: Seq<char>| #[trigger]
                ks.take(i as int).to_set().contains(k) && has_hidden_marker(k) && !keep@.contains(k)
                    ==> answers(f, k, false),
        decreases n - i,
    {
        let key = keys.key_at(i);
        proof {
            lemma_take_push_set(ks, i as int);
        }
        if is_hidden_name(key.as_str()) {
            let wanted = f(key.as_str());
            assert(answers(f, key@, wanted));
            if wanted {
                keep.insert(key.clone());
            }
        }
        i += 1;
    }
    proof {
        assert(ks.take(n as int) =~= ks);
    }
}

/// The names of the declared features of a manifest and of the dependencies that
/// hold for all targets.
pub open spec fn top_names<M>(m: Manifest<M>) -> Set<Seq<char>> {
    Set::new(
        |k: Seq<char>|
            m.features@.dom().contains(k) || m.dependencies@.dom().contains(k)
                || m.build_dependencies@.dom().contains(k) || m.dev_dependencies@.dom().contains(k),
    )
}

/// The names that may come to stand for a feature of a manifest: those of its declared
/// features and of its dependencies, whatever they are for.
pub open spec fn feature_names<M>(m: Manifest<M>) -> Set<Seq<char>> {
    Set::new(
        |k: Seq<char>|
            top_names(m).contains(k) || exists|t: Seq<char>|
                m.target@.dom().contains(t) && target_names(#[trigger] m.target@[t]).contains(k),
    )
}

/// The names of the dependencies of one target.
pub open spec fn target_names(t: Target) -> Set<Seq<char>> {
    Set::new(
        |k: Seq<char>|
            t.dependencies@.dom().contains(k) || t.build_dependencies@.dom().contains(k)
                || t.dev_dependencies@.dom().contains(k),
    )
}

/// The names that may come to stand for a feature where the dependencies are handed
/// over one by one: those of the declared features and of the dependencies.
pub open spec fn custom_names(features: Set<Seq<char>>, deps: Seq<ParseDependency>) -> Set<Seq<char>> {
    Set::new(
        |k: Seq<char>|
            features.contains(k) || exists|i: int| 0 <= i < deps.len() && (#[trigger] deps[i]).key@ == k,
    )
}

impl Resolver {
    /// A resolver that keeps the hidden features of a manifest that a function of
    /// their names wants kept. The function is asked about each name beginning with
    /// `_` among the declared features and the dependencies of the manifest; a name
    /// is kept if the function wants it kept when it is asked.
    pub fn keeping<M, F: Fn(&str) -> bool>(manifest: &Manifest<M>, should_keep_hidden_feature: F) -> (r:
        Self)
        requires
            forall|s: &str| call_requires(should_keep_hidden_feature, (s,)),
        ensures
            forall|k: Seq<char>| #[trigger]
                r.kept().contains(k) ==> feature_names(*manifest).contains(k) && has_hidden_marker(k)
                    && answers(&should_keep_hidden_feature, k, true),
            forall|k: Seq<char>| #[trigger]
                feature_names(*manifest).contains(k) && has_hidden_marker(k) && !r.kept().contains(k)
                    ==> answers(&should_keep_hidden_feature, k, false),
    {
        let mut keep = StrSet::new();
        keep_of(&manifest.features, &should_keep_hidden_feature, &mut keep);
        keep_of(&manifest.dependencies, &should_keep_hidden_feature, &mut keep);
        keep_of(&manifest.build_dependencies, &should_keep_hidden_feature, &mut keep);
        keep_of(&manifest.dev_dependencies, &should_keep_hidden_feature, &mut keep);
        let n = manifest.target.len();
        let ghost ts = sorted_seq(manifest.target@.dom());
        let ghost top = keep@;
        proof {
            lemma_sorted_seq_dom(manifest.target@.dom());
        }
        let mut i: usize = 0;
        while i < n
            invariant
                i <= n,
                n == ts.len(),
                ts == sorted_seq(manifest.target@.dom()),
                ts.to_set() == manifest.target@.dom(),
                forall|s: &str| call_requires(should_keep_hidden_feature, (s,)),
                top.subset_of(keep@),
                forall|k: Seq<char>| #[trigger]
                    keep@.contains(k) ==> feature_names(*manifest).contains(k) && has_hidden_marker(k)
                        && answers(&should_keep_hidden_feature, k, true),
                forall|k: Seq<char>, t: Seq<char>|
                    ts.take(i as int).to_set().contains(t) && #[trigger] target_names(
                        manifest.target@[t],
                    ).contains(k) && has_hidden_marker(k) && !keep@.contains(k) ==> #[trigger] answers(
                        &should_keep_hidden_feature,
                        k,
                        false,
                    ),
                forall|k: Seq<char>| #[trigger]
                    top_names(*manifest).contains(k) && has_hidden_marker(k) && !keep@.contains(k)
                        ==> answers(&should_keep_hidden_feature, k, false),
            decreases n - i,
        {
            let t = manifest.target.value_at(i);
            let ghost tk = ts[i as int];
            proof {
                lemma_take_push_set(ts, i as int);
                assert(ts.to_set().contains(tk));
            }
            keep_of(&t.dependencies, &should_keep_hidden_feature, &mut keep);
            keep_of(&t.build_dependencies, &should_keep_hidden_feature, &mut keep);
            keep_of(&t.dev_dependencies, &should_keep_hidden_feature, &mut keep);
            proof {
                assert forall|k: Seq<char>| #[trigger] keep@.contains(k) implies feature_names(
                    *manifest,
                ).contains(k) && has_hidden_marker(k) && answers(
                    &should_keep_hidden_feature,
                    k,
                    true,
                ) by {
                    if t.dependencies@.dom().contains(k) || t.build_dependencies@.dom().contains(k)
                        || t.dev_dependencies@.dom().contains(k) {
                        assert(target_names(manifest.target@[tk]).contains(k));
                    }
                }
            }
            i += 1;
        }
        proof {
            assert(ts.take(n as int) =~= ts);
            assert forall|k: Seq<char>| #[trigger]
                feature_names(*manifest).contains(k) && has_hidden_marker(k) && !keep@.contains(
                    k,
                ) implies answers(&should_keep_hidden_feature, k, false) by {
                if !top_names(*manifest).contains(k) {
                    let t = choose|t: Seq<char>|
                        manifest.target@.dom().contains(t) && target_names(
                            #[trigger] manifest.target@[t],
                        ).contains(k);
                    assert(ts.to_set().contains(t));
                }
            }
        }
        Resolver { always_keep: Some(keep) }
    }

    /// A resolver that keeps the hidden features, among declared features and
    /// dependencies that are handed over one by one, that a function of their names
    /// wants kept. The function is asked about each name beginning with `_` among
    /// them; a name is kept if the function wants it kept when it is asked.
    pub fn keeping_custom<'a, F: Fn(&str) -> bool>(
        manifest_features: &StrMap<Vec<String>>,
        deps: &Vec<ParseDependency<'a>>,
        should_keep_hidden_feature: F,
    ) -> (r: Self)
        requires
            forall|s: &str| call_requires(should_keep_hidden_feature, (s,)),
        ensures
            forall|k: Seq<char>| #[trigger]
                r.kept().contains(k) ==> custom_names(manifest_features@.dom(), deps@).contains(k)
                    && has_hidden_marker(k) && answers(&should_keep_hidden_feature, k, true),
            forall|k: Seq<char>| #[trigger]
                custom_names(manifest_features@.dom(), deps@).contains(k) && has_hidden_marker(k)
                    && !r.kept().contains(k) ==> answers(&should_keep_hidden_feature, k, false),
    {
        let mut keep = StrSet::new();
        keep_of(manifest_features, &should_keep_hidden_feature, &mut keep);
        let ghost declared = keep@;
        let mut i: usize = 0;
        while i < deps.len()
            invariant
                i <= deps@.len(),
                forall|s: &str| call_requires(should_keep_hidden_feature, (s,)),
                declared.subset_of(keep@),
                forall|k: Seq<char>| #[trigger]
                    keep@.contains(k) ==> custom_names(manifest_features@.dom(), deps@).contains(k)
                        && has_hidden_marker(k) && answers(&should_keep_hidden_feature, k, true),
                forall|k: Seq<char>| #[trigger]
                    manifest_features@.dom().contains(k) && has_hidden_marker(k) && !keep@.contains(k)
                        ==> answers(&should_keep_hidden_feature, k, false),
                forall|j: int|
                    0 <= j < i && has_hidden_marker((#[trigger] deps@[j]).key@) && !keep@.contains(
                        deps@[j].key@,
                    ) ==> answers(&should_keep_hidden_feature, deps@[j].key@, false),
            decreases deps@.len() - i,
        {
            let key = deps[i].key;
            if is_hidden_name(key) {
                let wanted = should_keep_hidden_feature(key);
                assert(answers(&should_keep_hidden_feature, key@, wanted));
                if wanted {
                    keep.insert(key.to_owned());
                }
            }
            i += 1;
        }
        proof {
            assert forall|k: Seq<char>| #[trigger]
                custom_names(manifest_features@.dom(), deps@).contains(k) && has_hidden_marker(k)
                    && !keep@.contains(k) implies answers(&should_keep_hidden_feature, k, false) by {
                if !manifest_features@.dom().contains(k) {
                    let j = choose|j: int| 0 <= j < deps@.len() && (#[trigger] deps@[j]).key@ == k;
                    assert(deps@[j].key@ == k);
                }
            }
        }
        Resolver { always_keep: Some(keep) }
    }
}

} // verus!
