//! Finding what a package builds from the files that lie beside its manifest.

use vstd::prelude::*;
use crate::dependency::{clone_text, clone_texts};
use crate::error::{Error, IoError, IoErrorKind};
use crate::inheritable::Inheritable;
use crate::manifest::Manifest;
use crate::package::{Edition, OptionalFile};
use crate::product::{blank_product, Product, ProductView};
use crate::strmap::{StrMap, lemma_deep_map_insert, lemma_deep_map_remove, lemma_deep_map_empty};
use crate::strset::StrSet;
use crate::order::{sorted_seq};
use crate::text::{concat3, ends_with, has_suffix, lex_lt, replace_char, replaced, text_eq, text_lt, trim_end, trimmed, lemma_lex_asymmetric, lemma_lex_irreflexive, lemma_lex_total, lemma_lex_transitive};

verus! {

broadcast use vstd::string::group_string_axioms;

/// What was found when the directories of a package were read: under the path of each
/// directory, relative to the manifest, the names in it, or why it could not be read.
/// A directory that is not listed counts as not found.
pub type Listing = StrMap<Result<StrSet, IoError>>;

/// The model of a [`Listing`].
pub type ListingView = Map<Seq<char>, Result<StrSet, IoError>>;

impl Product {
    /// A copy of the product.
    pub fn duplicate(&self) -> (r: Product)
        ensures
            r@ == self@,
    {
        let r = Product {
            path: clone_text(&self.path),
            name: clone_text(&self.name),
            test: self.test,
            doctest: self.doctest,
            bench: self.bench,
            doc: self.doc,
            plugin: self.plugin,
            proc_macro: self.proc_macro,
            harness: self.harness,
            edition: self.edition,
            crate_type: clone_texts(&self.crate_type),
            required_features: clone_texts(&self.required_features),
        };
        proof {
            assert(r.crate_type.deep_view() =~= self.crate_type.deep_view());
            assert(r.required_features.deep_view() =~= self.required_features.deep_view());
        }
        r
    }
}

/// The order of texts that may be missing: a missing one first, then by characters.
pub open spec fn opt_lt(a: Option<Seq<char>>, b: Option<Seq<char>>) -> bool {
    match (a, b) {
        (None, Some(_)) => true,
        (Some(x), Some(y)) => lex_lt(x, y),
        _ => false,
    }
}

/// The order in which products are listed: by name, then by path. Whether `a` may
/// stand before `b`.
pub open spec fn product_le(a: ProductView, b: ProductView) -> bool {
    opt_lt(a.name, b.name) || (a.name == b.name && !opt_lt(b.path, a.path))
}

/// Whether the products stand in order.
pub open spec fn products_sorted(s: Seq<ProductView>) -> bool {
    forall|i: int, j: int| 0 <= i < j < s.len() ==> product_le(#[trigger] s[i], #[trigger] s[j])
}

/// Whether `sorted` holds the products of `given`, each as often, in order.
pub open spec fn sorting_of(sorted: Seq<ProductView>, given: Seq<ProductView>) -> bool {
    products_sorted(sorted) && sorted.to_multiset() == given.to_multiset()
}

/// Two texts are not each before the other.
proof fn lemma_lex_not_both(a: Seq<char>, b: Seq<char>)
    ensures
        !(lex_lt(a, b) && lex_lt(b, a)),
{
    if lex_lt(a, b) {
        lemma_lex_asymmetric(a, b);
    }
}

/// The order of texts that may be missing is a strict total order.
proof fn lemma_opt_lt(a: Option<Seq<char>>, b: Option<Seq<char>>, c: Option<Seq<char>>)
    ensures
        opt_lt(a, b) && opt_lt(b, c) ==> opt_lt(a, c),
        !opt_lt(a, a),
        !(opt_lt(a, b) && opt_lt(b, a)),
        a == b || opt_lt(a, b) || opt_lt(b, a),
{
    if a is Some {
        lemma_lex_irreflexive(a->0);
    }
    if a is Some && b is Some {
        lemma_lex_not_both(a->0, b->0);
        lemma_lex_total(a->0, b->0);
    }
    if a is Some && b is Some && c is Some && lex_lt(a->0, b->0) && lex_lt(b->0, c->0) {
        lemma_lex_transitive(a->0, b->0, c->0);
    }
}

/// Of two products one may stand before the other.
pub proof fn lemma_product_le_total(a: ProductView, b: ProductView)
    ensures
        product_le(a, b) || product_le(b, a),
{
    lemma_opt_lt(a.name, b.name, a.name);
    lemma_opt_lt(a.path, b.path, a.path);
}

/// The order of products is transitive.
pub proof fn lemma_product_le_transitive(a: ProductView, b: ProductView, c: ProductView)
    requires
        product_le(a, b),
        product_le(b, c),
    ensures
        product_le(a, c),
{
    lemma_opt_lt(a.name, b.name, c.name);
    lemma_opt_lt(c.path, b.path, a.path);
    lemma_opt_lt(c.path, a.path, b.path);
    lemma_opt_lt(b.path, c.path, a.path);
    lemma_opt_lt(a.path, b.path, c.path);
}

/// Whether a text that may be missing comes before another.
fn opt_before(a: &Option<String>, b: &Option<String>) -> (r: bool)
    ensures
        r == opt_lt(a.deep_view(), b.deep_view()),
{
    match (a, b) {
        (None, Some(_)) => true,
        (Some(x), Some(y)) => text_lt(x.as_str(), y.as_str()),
        _ => false,
    }
}

/// Whether two texts that may be missing are the same.
fn opt_same(a: &Option<String>, b: &Option<String>) -> (r: bool)
    ensures
        r == (a.deep_view() == b.deep_view()),
{
    match (a, b) {
        (None, None) => true,
        (Some(x), Some(y)) => text_eq(x.as_str(), y.as_str()),
        _ => false,
    }
}

/// Whether `a` may stand before `b`.
fn may_precede(a: &Product, b: &Product) -> (r: bool)
    ensures
        r == product_le(a@, b@),
{
    opt_before(&a.name, &b.name) || (opt_same(&a.name, &b.name) && !opt_before(&b.path, &a.path))
}

/// The paths that a manifest names for its products.
pub open spec fn named_paths(products: Seq<ProductView>) -> Set<Seq<char>> {
    Set::new(
        |p: Seq<char>| exists|i: int| 0 <= i < products.len() && (#[trigger] products[i]).path == Some(p),
    )
}

/// The products for which a manifest names a path, in the order of the manifest.
pub open spec fn with_paths(given: Seq<ProductView>) -> Seq<ProductView>
    decreases given.len(),
{
    if given.len() == 0 {
        Seq::empty()
    } else if given.last().path is Some {
        with_paths(given.drop_last()).push(given.last())
    } else {
        with_paths(given.drop_last())
    }
}

/// The products that a manifest declares by name without a path, under their names.
/// Of two of one name the later counts.
pub open spec fn by_name(given: Seq<ProductView>) -> Map<Seq<char>, ProductView>
    decreases given.len(),
{
    if given.len() == 0 {
        Map::empty()
    } else if given.last().path is None && given.last().name is Some {
        by_name(given.drop_last()).insert(given.last().name->0, given.last())
    } else {
        by_name(given.drop_last())
    }
}

/// Whether every product names where its source lies.
pub open spec fn all_have_paths(products: Seq<ProductView>) -> bool {
    forall|i: int| 0 <= i < products.len() ==> (#[trigger] products[i]).path is Some
}

/// Whether the directory was read.
pub open spec fn was_read(fs: ListingView, dir: Seq<char>) -> bool {
    fs.dom().contains(dir) && fs[dir] is Ok
}

/// The names in a directory that was read.
pub open spec fn names_in(fs: ListingView, dir: Seq<char>) -> Set<Seq<char>> {
    (fs[dir]->Ok_0)@
}

/// Whether the directory was read and holds the name.
pub open spec fn lists(fs: ListingView, dir: Seq<char>, name: Seq<char>) -> bool {
    was_read(fs, dir) && names_in(fs, dir).contains(name)
}

/// The product that an entry of the directory `dir` stands for, by its name and its
/// path: a file `name.rs` stands for `name`, a directory `name` that holds a `main.rs`
/// for `name`. An entry whose path is among `full` stands for none.
pub open spec fn wanted(
    fs: ListingView,
    dir: Seq<char>,
    entry: Seq<char>,
    full: Set<Seq<char>>,
) -> Option<(Seq<char>, Seq<char>)> {
    let rel = dir + "/"@ + entry;
    if has_suffix(entry, ".rs"@) {
        if full.contains(rel) {
            None
        } else {
            Some((trimmed(entry, ".rs"@), rel))
        }
    } else if lists(fs, rel, "main.rs"@) && !full.contains(rel + "/"@ + "main.rs"@) {
        Some((entry, rel + "/"@ + "main.rs"@))
    } else {
        None
    }
}

/// The products found so far and those still declared without a path, after one more
/// is found at `path` for `name`: the one declared under that name, which is then no
/// longer without a path, or a new one of the package's edition.
pub open spec fn taken(
    state: (Seq<ProductView>, Map<Seq<char>, ProductView>),
    name: Seq<char>,
    path: Seq<char>,
    edition: Edition,
) -> (Seq<ProductView>, Map<Seq<char>, ProductView>) {
    let found = if state.1.dom().contains(name) {
        ProductView { path: Some(path), ..state.1[name] }
    } else {
        ProductView { name: Some(name), path: Some(path), edition, ..blank_product() }
    };
    (state.0.push(found), state.1.remove(name))
}

/// The same after the entries of a directory are looked at in turn.
pub open spec fn searched(
    state: (Seq<ProductView>, Map<Seq<char>, ProductView>),
    fs: ListingView,
    dir: Seq<char>,
    entries: Seq<Seq<char>>,
    edition: Edition,
    full: Set<Seq<char>>,
) -> (Seq<ProductView>, Map<Seq<char>, ProductView>)
    decreases entries.len(),
{
    if entries.len() == 0 {
        state
    } else {
        let prev = searched(state, fs, dir, entries.drop_last(), edition, full);
        match wanted(fs, dir, entries.last(), full) {
            Some((name, path)) => taken(prev, name, path, edition),
            None => prev,
        }
    }
}

/// Whether any of the entries stands for a product.
pub open spec fn any_wanted(
    fs: ListingView,
    dir: Seq<char>,
    entries: Seq<Seq<char>>,
    full: Set<Seq<char>>,
) -> bool {
    exists|i: int| 0 <= i < entries.len() && #[trigger] wanted(fs, dir, entries[i], full) is Some
}

/// Where no entry stands for a product, looking at them changes nothing.
pub proof fn lemma_searched_nothing(
    state: (Seq<ProductView>, Map<Seq<char>, ProductView>),
    fs: ListingView,
    dir: Seq<char>,
    entries: Seq<Seq<char>>,
    edition: Edition,
    full: Set<Seq<char>>,
)
    requires
        !any_wanted(fs, dir, entries, full),
    ensures
        searched(state, fs, dir, entries, edition, full) == state,
    decreases entries.len(),
{
    if entries.len() > 0 {
        let p = entries.drop_last();
        assert forall|i: int| 0 <= i < p.len() implies !(#[trigger] wanted(fs, dir, p[i], full) is Some) by {
            assert(p[i] == entries[i]);
        }
        lemma_searched_nothing(state, fs, dir, p, edition, full);
        assert(entries[entries.len() - 1] == entries.last());
    }
}

/// What is found of one kind of product in its directory: the products, in the order
/// in which they are found after those that the manifest names with a path, the paths
/// that the manifest names, and the products that stay without a path. `None` where a
/// product is found although the package's edition is left to the workspace.
pub open spec fn found_in(
    given: Seq<ProductView>,
    fs: ListingView,
    dir: Seq<char>,
    edition: Inheritable<Edition>,
) -> Option<(Seq<ProductView>, Set<Seq<char>>, Map<Seq<char>, ProductView>)> {
    let full = named_paths(given);
    let start = (with_paths(given), by_name(given));
    if !was_read(fs, dir) {
        Some((start.0, full, start.1))
    } else {
        let entries = sorted_seq(names_in(fs, dir));
        match edition {
            Inheritable::Value(e) => {
                let end = searched(start, fs, dir, entries, e, full);
                Some((end.0, full, end.1))
            },
            Inheritable::Inherited => if any_wanted(fs, dir, entries, full) {
                None
            } else {
                Some((start.0, full, start.1))
            },
        }
    }
}

/// The names in a directory that was read.
fn file_names_in<'a>(fs: &'a Listing, rel_path: &str) -> (r: Option<&'a StrSet>)
    ensures
        match r {
            Some(names) => was_read(fs@, rel_path@) && names@ == names_in(fs@, rel_path@),
            None => !was_read(fs@, rel_path@),
        },
{
    match fs.get(rel_path) {
        Some(Ok(names)) => Some(names),
        _ => None,
    }
}

/// A product that was found on disk: the one that the manifest declares under this
/// name without a path, or a new one of the package's edition.
fn found_product(
    partial: &mut StrMap<Product>,
    name: &str,
    rel_path: String,
    edition: Edition,
) -> (r: Product)
    ensures
        (seq![r@], final(partial).deep_view()) == taken(
            (Seq::empty(), old(partial).deep_view()),
            name@,
            rel_path@,
            edition,
        ),
{
    let ghost before = partial@;
    proof {
        lemma_deep_map_remove(before, name@);
    }
    let r = match partial.remove(name) {
        Some(mut product) => {
            product.path = Some(rel_path);
            product
        },
        None => {
            let mut product = Product::default();
            product.name = Some(name.to_owned());
            product.path = Some(rel_path);
            product.edition = edition;
            product
        },
    };
    proof {
        let t = taken((Seq::empty(), old(partial).deep_view()), name@, rel_path@, edition);
        assert(t.0 =~= seq![r@]);
    }
    r
}

/// Whether an entry of a directory of products is looked into as a directory that may
/// hold a `main.rs`: every entry is but a file `name.rs`.
pub open spec fn looked_into(entry: Seq<char>) -> bool {
    !has_suffix(entry, ".rs"@)
}

/// Whether an entry of a directory of products is looked into as a directory. A
/// listing holds what [`Manifest::complete_from_abstract_filesystem_inner`] reads
/// where it holds each such entry of the directories of products.
pub fn is_looked_into(entry: &str) -> (b: bool)
    ensures
        b == looked_into(entry@),
{
    !ends_with(entry, ".rs")
}

/// What an entry of a directory stands for.
fn wanted_of<'a>(fs: &Listing, dir: &str, entry: &'a str, full: &StrSet) -> (r: Option<(&'a str, String)>)
    ensures
        match r {
            Some((name, path)) => wanted(fs@, dir@, entry@, full@) == Some((name@, path@)),
            None => wanted(fs@, dir@, entry@, full@) is None,
        },
{
    let rel_path = concat3(dir, "/", entry);
    if ends_with(entry, ".rs") {
        if full.contains(rel_path.as_str()) {
            None
        } else {
            Some((trim_end(entry, ".rs"), rel_path))
        }
    } else {
        match file_names_in(fs, rel_path.as_str()) {
            Some(sub) => {
                let main_path = concat3(rel_path.as_str(), "/", "main.rs");
                if sub.contains("main.rs") && !full.contains(main_path.as_str()) {
                    Some((entry, main_path))
                } else {
                    None
                }
            },
            None => None,
        }
    }
}

impl<Metadata> Manifest<Metadata> {
    /// Puts products in order: by name, then by path. No product is lost or added.
    pub fn sort_products(products: &mut Vec<Product>)
        ensures
            sorting_of(final(products).deep_view(), old(products).deep_view()),
    {
        let n = products.len();
        let ghost given = products.deep_view();
        let mut i: usize = 0;
        assert(products.deep_view().take(0) =~= Seq::<ProductView>::empty());
        while i < n
            invariant
                i <= n,
                n == products@.len(),
                products_sorted(products.deep_view().take(i as int)),
                products.deep_view().to_multiset() == given.to_multiset(),
            decreases n - i,
        {
            let ghost before = products.deep_view();
            let x = products.remove(i);
            let ghost mid = products.deep_view();
            assert(mid =~= before.remove(i as int));
            let mut j: usize = 0;
            while j < i && may_precede(&products[j], &x)
                invariant
                    j <= i,
                    i < n,
                    products.deep_view() == mid,
                    products@.len() == n - 1,
                    forall|k: int| 0 <= k < j ==> product_le(#[trigger] mid[k], x@),
                decreases i - j,
            {
                assert(mid[j as int] == products@[j as int]@);
                j += 1;
            }
            let ghost stopped = j < i ==> !product_le(mid[j as int], x@);
            proof {
                if j < i {
                    assert(mid[j as int] == products@[j as int]@);
                }
            }
            products.insert(j, x);
            proof {
                broadcast use vstd::multiset::group_multiset_axioms;

                let xv = x@;
                let after = products.deep_view();
                assert(after =~= mid.insert(j as int, xv));
                vstd::seq_lib::to_multiset_remove(before, i as int);
                vstd::seq_lib::to_multiset_insert(mid, j as int, xv);
                assert(before[i as int] == xv);
                before.to_multiset_ensures();
                assert(before.to_multiset().count(xv) > 0);
                assert(after.to_multiset() =~= before.to_multiset());
                let done = after.take(i as int + 1);
                let prev = before.take(i as int);
                assert forall|a: int, b: int| 0 <= a < b < done.len() implies product_le(
                    #[trigger] done[a],
                    #[trigger] done[b],
                ) by {
                    let ia = if a < j { a } else { a - 1 };
                    let ib = if b < j { b } else { b - 1 };
                    if a != j && b != j {
                        assert(done[a] == prev[ia] && done[b] == prev[ib]);
                    } else if b == j {
                        assert(done[a] == mid[a]);
                    } else {
                        assert(done[b] == prev[ib]);
                        assert(mid[j as int] == prev[j as int]);
                        assert(!product_le(mid[j as int], xv));
                        lemma_product_le_total(xv, done[b]);
                        if !product_le(xv, done[b]) {
                            if ib > j {
                                assert(product_le(prev[j as int], prev[ib]));
                            }
                            lemma_product_le_transitive(prev[j as int], prev[ib], xv);
                        }
                    }
                }
            }
            i += 1;
        }
        assert(products.deep_view().take(n as int) =~= products.deep_view());
    }

    /// Adds to the products of one kind those that lie in the directory `dir`: each
    /// file `name.rs` as the product `name`, and each directory `name` that holds a
    /// `main.rs` as the product `name`. See [`found_in`].
    ///
    /// A path that the manifest names for a product is not taken again. A product that
    /// the manifest declares by name without a path takes the path that is found for its
    /// name; one for which none is found is dropped from the products and handed back.
    /// Hands back, too, the paths that the manifest names. Where the manifest is none of
    /// a package the directory is not looked into. Fails with
    /// [`Error::InheritedUnknownValue`] where a product is found while the package's
    /// edition is left to the workspace.
    pub fn autoset(&self, out: &mut Vec<Product>, dir: &str, fs: &Listing) -> (r: Result<
        (StrSet, StrMap<Product>),
        Error,
    >)
        ensures
            all_have_paths(final(out).deep_view()),
            match self.package {
                None => r matches Ok((full, partial)) && full@ == named_paths(old(out).deep_view())
                    && final(out).deep_view() == with_paths(old(out).deep_view()) && partial.deep_view()
                    == by_name(old(out).deep_view()),
                Some(p) => match found_in(old(out).deep_view(), fs@, dir@, p.edition) {
                    Some(found) => r matches Ok((full, partial)) && full@ == found.1
                        && final(out).deep_view() == found.0 && partial.deep_view() == found.2,
                    None => r matches Err(e) && e is InheritedUnknownValue,
                },
            },
    {
        let mut fully_overrided = StrSet::new();
        let mut partial_overrided: StrMap<Product> = StrMap::new();
        let mut given: Vec<Product> = Vec::new();
        std::mem::swap(out, &mut given);
        let ghost all = given.deep_view();
        let mut i: usize = 0;
        proof {
            lemma_deep_map_empty::<Product>();
            assert(all.take(0) =~= Seq::<ProductView>::empty());
            assert(fully_overrided@ =~= named_paths(all.take(0)));
            assert(out.deep_view() =~= with_paths(all.take(0)));
        }
        while i < given.len()
            invariant
                i <= given@.len(),
                given.deep_view() == all,
                all == old(out).deep_view(),
                fully_overrided@ == named_paths(all.take(i as int)),
                out.deep_view() == with_paths(all.take(i as int)),
                partial_overrided.deep_view() == by_name(all.take(i as int)),
                all_have_paths(out.deep_view()),
            decreases given@.len() - i,
        {
            let product = &given[i];
            let ghost a = all.take(i as int);
            let ghost b = all.take(i as int + 1);
            proof {
                assert(all[i as int] == product@);
                assert(b.drop_last() =~= a);
                assert(b.last() == all[i as int]);
            }
            match &product.path {
                Some(p) => {
                    fully_overrided.insert(p.clone());
                    let ghost before = out.deep_view();
                    let copy = product.duplicate();
                    out.push(copy);
                    assert(out.deep_view() =~= before.push(product@));
                },
                None => match &product.name {
                    Some(name) => {
                        let ghost before = partial_overrided@;
                        let copy = product.duplicate();
                        partial_overrided.insert(name.clone(), copy);
                        proof {
                            lemma_deep_map_insert(before, name@, copy);
                        }
                    },
                    None => {},
                },
            }
            proof {
                assert forall|p: Seq<char>| named_paths(b).contains(p) == (named_paths(a).contains(p)
                    || all[i as int].path == Some(p)) by {
                    if named_paths(b).contains(p) {
                        let k = choose|k: int| 0 <= k < b.len() && (#[trigger] b[k]).path == Some(p);
                        if k < i {
                            assert(a[k] == b[k]);
                        }
                    }
                    if named_paths(a).contains(p) {
                        let k = choose|k: int| 0 <= k < a.len() && (#[trigger] a[k]).path == Some(p);
                        assert(b[k] == a[k]);
                    }
                    if all[i as int].path == Some(p) {
                        assert(b[i as int] == all[i as int]);
                    }
                }
                assert(fully_overrided@ =~= named_paths(b));
            }
            i += 1;
        }
        assert(all.take(given@.len() as int) =~= all);
        let edition = match &self.package {
            Some(p) => p.edition,
            None => {
                return Ok((fully_overrided, partial_overrided));
            },
        };
        let bins = match file_names_in(fs, dir) {
            Some(b) => b,
            None => {
                return Ok((fully_overrided, partial_overrided));
            },
        };
        let n = bins.len();
        let ghost entries = sorted_seq(bins@);
        let ghost full = named_paths(all);
        let ghost start = (with_paths(all), by_name(all));
        let ghost e0 = match edition {
            Inheritable::Value(e) => e,
            Inheritable::Inherited => Edition::E2015,
        };
        let mut k: usize = 0;
        proof {
            assert(entries.take(0) =~= Seq::<Seq<char>>::empty());
        }
        while k < n
            invariant
                k <= n,
                n == entries.len(),
                entries == sorted_seq(bins@),
                all_have_paths(out.deep_view()),
                fully_overrided@ == full,
                self.package matches Some(p) && p.edition == edition,
                was_read(fs@, dir@),
                bins@ == names_in(fs@, dir@),
                all == old(out).deep_view(),
                full == named_paths(all),
                start == (with_paths(all), by_name(all)),
                e0 == match edition {
                    Inheritable::Value(e) => e,
                    Inheritable::Inherited => Edition::E2015,
                },
                (out.deep_view(), partial_overrided.deep_view()) == searched(
                    start,
                    fs@,
                    dir@,
                    entries.take(k as int),
                    e0,
                    full,
                ),
                edition is Inherited ==> !any_wanted(fs@, dir@, entries.take(k as int), full),
            decreases n - k,
        {
            let entry = bins.get(k);
            proof {
                assert(entries.take(k as int + 1).drop_last() =~= entries.take(k as int));
                assert(entries.take(k as int + 1).last() == entries[k as int]);
            }
            match wanted_of(fs, dir, entry.as_str(), &fully_overrided) {
                Some((name, path)) => {
                    let e = match edition {
                        Inheritable::Value(e) => e,
                        Inheritable::Inherited => {
                            proof {
                                assert(wanted(fs@, dir@, entries[k as int], full) is Some);
                                assert(any_wanted(fs@, dir@, entries, full));
                            }
                            return Err(Error::InheritedUnknownValue);
                        },
                    };
                    let ghost before = out.deep_view();
                    let ghost held = partial_overrided.deep_view();
                    let product = found_product(&mut partial_overrided, name, path, e);
                    out.push(product);
                    proof {
                        let t = taken((Seq::empty(), held), name@, path@, e);
                        assert(t.0[0] == product@);
                        assert(product@.path is Some);
                        assert(out.deep_view() =~= before.push(product@));
                        assert(taken((before, held), name@, path@, e).0 =~= before.push(product@));
                    }
                },
                None => {},
            }
            proof {
                if edition is Inherited {
                    let now = entries.take(k as int + 1);
                    if any_wanted(fs@, dir@, now, full) {
                        let w = choose|w: int|
                            0 <= w < now.len() && #[trigger] wanted(fs@, dir@, now[w], full) is Some;
                        if w < k {
                            assert(entries.take(k as int)[w] == now[w]);
                        }
                    }
                }
            }
            k += 1;
        }
        proof {
            assert(entries.take(n as int) =~= entries);
            if edition is Inherited {
                lemma_searched_nothing(start, fs@, dir@, entries, e0, full);
            }
        }
        Ok((fully_overrided, partial_overrided))
    }
}

/// Why completing a manifest from its files fails.
pub enum Failure {
    /// A directory could not be read: the kind of the failure and what the system says.
    Unread(IoErrorKind, Seq<char>),
    /// A value of the package is needed that is left to the workspace.
    Unknown,
}

/// What completing a manifest finds: the library, and of each other kind of product
/// the products in the order in which they are found, and the names in the package's
/// own directory.
pub struct Completed {
    pub lib: Option<ProductView>,
    pub bin: Seq<ProductView>,
    pub example: Seq<ProductView>,
    pub test: Seq<ProductView>,
    pub bench: Seq<ProductView>,
    pub root: Set<Seq<char>>,
}

/// The names in `src`: none where the directory is not there, `Err` where it could
/// not be read for another reason.
pub open spec fn src_names(fs: ListingView) -> Result<Set<Seq<char>>, Failure> {
    if !fs.dom().contains("src"@) {
        Ok(Set::empty())
    } else {
        match fs["src"@] {
            Ok(names) => Ok(names@),
            Err(e) => if e.kind == IoErrorKind::NotFound {
                Ok(Set::empty())
            } else {
                Err(Failure::Unread(e.kind, e.message@))
            },
        }
    }
}

/// The names in the package's own directory, which must have been read.
pub open spec fn root_names(fs: ListingView) -> Result<Set<Seq<char>>, Failure> {
    if !fs.dom().contains(""@) {
        Err(Failure::Unread(IoErrorKind::NotFound, "not listed"@))
    } else {
        match fs[""@] {
            Ok(names) => Ok(names@),
            Err(e) => Err(Failure::Unread(e.kind, e.message@)),
        }
    }
}

/// The library of a package after its files were looked at. It has no required
/// features. One whose path the manifest does not name is found at `src/lib.rs`: it is
/// then of the package's edition, is built as `rlib`, and goes by the name that the
/// manifest gives it, or else by the package's name with `_` for `-`. `None` where it
/// is found although the package's edition is left to the workspace.
pub open spec fn library(
    old: Option<ProductView>,
    name: Seq<char>,
    edition: Inheritable<Edition>,
    found: bool,
) -> Option<Option<ProductView>> {
    let cleared = match old {
        Some(l) => Some(ProductView { required_features: Seq::empty(), ..l }),
        None => None,
    };
    let has_path = (old matches Some(l) && l.path is Some);
    if !has_path && found {
        match edition {
            Inheritable::Value(e) => {
                let base = match cleared {
                    Some(l) => l,
                    None => blank_product(),
                };
                Some(
                    Some(
                        ProductView {
                            name: if base.name is Some {
                                base.name
                            } else {
                                Some(replaced(name, '-', "_"@))
                            },
                            path: Some("src/lib.rs"@),
                            edition: e,
                            crate_type: seq!["rlib"@],
                            ..base
                        },
                    ),
                )
            },
            Inheritable::Inherited => None,
        }
    } else {
        Some(cleared)
    }
}

/// The binaries of a package after its files were looked at: those of `src/bin`, and
/// the one at `src/main.rs`, which goes by the package's name, unless the manifest
/// names that path. With `auto` clear they are as the manifest declares them.
pub open spec fn binaries(
    given: Seq<ProductView>,
    fs: ListingView,
    auto: bool,
    edition: Inheritable<Edition>,
    name: Seq<char>,
    src: Set<Seq<char>>,
) -> Option<Seq<ProductView>> {
    if !auto {
        Some(given)
    } else {
        match found_in(given, fs, "src/bin"@, edition) {
            None => None,
            Some(found) => if src.contains("main.rs"@) && !found.1.contains("src/main.rs"@) {
                match edition {
                    Inheritable::Value(e) => Some(taken((found.0, found.2), name, "src/main.rs"@, e).0),
                    Inheritable::Inherited => None,
                }
            } else {
                Some(found.0)
            },
        }
    }
}

/// The products of another kind after the directory of the kind was looked at. With
/// `auto` clear they are as the manifest declares them.
pub open spec fn others(
    given: Seq<ProductView>,
    fs: ListingView,
    dir: Seq<char>,
    auto: bool,
    edition: Inheritable<Edition>,
) -> Option<Seq<ProductView>> {
    if !auto {
        Some(given)
    } else {
        match found_in(given, fs, dir, edition) {
            None => None,
            Some(found) => Some(found.0),
        }
    }
}

/// What completing the manifest of a package finds, or why it fails. The steps are
/// taken in this order, and the first that fails decides: `src` is read, then the
/// library is looked for, the binaries, the examples, the tests and the benchmarks,
/// then the package's own directory is read, and last the readme must be known.
pub open spec fn completion<M>(m: Manifest<M>, fs: ListingView) -> Result<Completed, Failure>
    recommends
        m.package is Some,
{
    let p = m.package->0;
    match src_names(fs) {
        Err(f) => Err(f),
        Ok(src) => match library(m.lib.deep_view(), p.name@, p.edition, src.contains("lib.rs"@)) {
            None => Err(Failure::Unknown),
            Some(lib) => match binaries(m.bin.deep_view(), fs, p.autobins, p.edition, p.name@, src) {
                None => Err(Failure::Unknown),
                Some(bin) => match others(
                    m.example.deep_view(),
                    fs,
                    "examples"@,
                    p.autoexamples,
                    p.edition,
                ) {
                    None => Err(Failure::Unknown),
                    Some(example) => match others(m.test.deep_view(), fs, "tests"@, p.autotests, p.edition) {
                        None => Err(Failure::Unknown),
                        Some(test) => match others(
                            m.bench.deep_view(),
                            fs,
                            "benches"@,
                            p.autobenches,
                            p.edition,
                        ) {
                            None => Err(Failure::Unknown),
                            Some(bench) => match root_names(fs) {
                                Err(f) => Err(f),
                                Ok(root) => if p.readme is Inherited {
                                    Err(Failure::Unknown)
                                } else {
                                    Ok(Completed { lib, bin, example, test, bench, root })
                                },
                            },
                        },
                    },
                },
            },
        },
    }
}

/// Whether a file that may be named is the one at `path`.
pub open spec fn is_path(f: OptionalFile, path: Seq<char>) -> bool {
    f matches OptionalFile::Path(p) && p@ == path
}

/// Whether `new` is the build script of a package after its files were looked at: a
/// `build.rs` that is found, unless the manifest names a script or switches it off.
pub open spec fn build_completed(old: Option<OptionalFile>, found: bool, new: Option<OptionalFile>) -> bool {
    if (old is None || old == Some(OptionalFile::Flag(true))) && found {
        new matches Some(f) && is_path(f, "build.rs"@)
    } else {
        new == old
    }
}

/// Whether `new` is the readme of a package after its files were looked at: the first
/// that is found of `README.md`, `README.txt` and `README`, unless the manifest names
/// a readme or switches it off.
pub open spec fn readme_completed(
    old: Inheritable<OptionalFile>,
    root: Set<Seq<char>>,
    new: Inheritable<OptionalFile>,
) -> bool {
    if old == Inheritable::Value(OptionalFile::Flag(true)) {
        if root.contains("README.md"@) {
            new matches Inheritable::Value(f) && is_path(f, "README.md"@)
        } else if root.contains("README.txt"@) {
            new matches Inheritable::Value(f) && is_path(f, "README.txt"@)
        } else if root.contains("README"@) {
            new matches Inheritable::Value(f) && is_path(f, "README"@)
        } else {
            new == old
        }
    } else {
        new == old
    }
}

/// The names in `src`.
fn read_src(fs: &Listing) -> (r: Result<StrSet, Error>)
    ensures
        match src_names(fs@) {
            Ok(names) => r matches Ok(s) && s@ == names,
            Err(Failure::Unread(kind, message)) => r matches Err(Error::Io(e)) && e.kind == kind
                && e.message@ == message,
            Err(Failure::Unknown) => false,
        },
{
    match fs.get("src") {
        Some(Ok(names)) => Ok(names.clone()),
        Some(Err(err)) => {
            if err.kind == IoErrorKind::NotFound {
                Ok(StrSet::new())
            } else {
                Err(Error::Io(IoError { kind: err.kind, message: err.message.clone() }))
            }
        },
        None => Ok(StrSet::new()),
    }
}

/// The names in the package's own directory.
fn read_root(fs: &Listing) -> (r: Result<StrSet, Error>)
    ensures
        match root_names(fs@) {
            Ok(names) => r matches Ok(s) && s@ == names,
            Err(Failure::Unread(kind, message)) => r matches Err(Error::Io(e)) && e.kind == kind
                && e.message@ == message,
            Err(Failure::Unknown) => false,
        },
{
    match fs.get("") {
        Some(Ok(names)) => Ok(names.clone()),
        Some(Err(err)) => Err(Error::Io(IoError { kind: err.kind, message: err.message.clone() })),
        None => Err(
            Error::Io(IoError { kind: IoErrorKind::NotFound, message: "not listed".to_string() }),
        ),
    }
}

/// Completes the library of a package.
fn complete_library(lib: Option<Product>, name: &str, edition: Inheritable<Edition>, found: bool) -> (r:
    Result<Option<Product>, Error>)
    ensures
        match library(lib.deep_view(), name@, edition, found) {
            Some(l) => r matches Ok(x) && x.deep_view() == l,
            None => r matches Err(e) && e is InheritedUnknownValue,
        },
{
    let mut lib = lib;
    if let Some(l) = &mut lib {
        l.required_features.clear();
        assert(l.required_features.deep_view() =~= Seq::<Seq<char>>::empty());
    }
    let has_path = match &lib {
        Some(l) => l.path.is_some(),
        None => false,
    };
    if !has_path && found {
        let e = match edition {
            Inheritable::Value(e) => e,
            Inheritable::Inherited => {
                return Err(Error::InheritedUnknownValue);
            },
        };
        let mut l = match lib {
            Some(l) => l,
            None => Product::default(),
        };
        if l.name.is_none() {
            l.name = Some(replace_char(name, '-', "_"));
        }
        l.path = Some("src/lib.rs".to_string());
        l.edition = e;
        let mut kinds: Vec<String> = Vec::new();
        kinds.push("rlib".to_string());
        assert(kinds.deep_view() =~= seq!["rlib"@]);
        l.crate_type = kinds;
        Ok(Some(l))
    } else {
        Ok(lib)
    }
}

/// Completes the build script and the readme of a package from the names in its
/// directory. The readme must not be left to the workspace.
fn complete_files(
    build: Option<OptionalFile>,
    readme: Inheritable<OptionalFile>,
    root: &StrSet,
) -> (r: (Option<OptionalFile>, Inheritable<OptionalFile>))
    requires
        readme is Value,
    ensures
        build_completed(build, root@.contains("build.rs"@), r.0),
        readme_completed(readme, root@, r.1),
{
    let wants_build = match &build {
        None => true,
        Some(OptionalFile::Flag(true)) => true,
        _ => false,
    };
    let new_build = if wants_build && root.contains("build.rs") {
        Some(OptionalFile::Path("build.rs".to_string()))
    } else {
        build
    };
    let wants_readme = match &readme {
        Inheritable::Value(OptionalFile::Flag(true)) => true,
        _ => false,
    };
    let new_readme = if wants_readme && root.contains("README.md") {
        Inheritable::Value(OptionalFile::Path("README.md".to_string()))
    } else if wants_readme && root.contains("README.txt") {
        Inheritable::Value(OptionalFile::Path("README.txt".to_string()))
    } else if wants_readme && root.contains("README") {
        Inheritable::Value(OptionalFile::Path("README".to_string()))
    } else {
        readme
    };
    (new_build, new_readme)
}

impl<Metadata> Manifest<Metadata> {
    /// Finds the binaries of the package and puts them in order.
    fn find_binaries(&self, given: Vec<Product>, fs: &Listing, src: &StrSet) -> (r: Result<
        Vec<Product>,
        Error,
    >)
        requires
            self.package is Some,
        ensures
            match binaries(
                given.deep_view(),
                fs@,
                self.package->0.autobins,
                self.package->0.edition,
                self.package->0.name@,
                src@,
            ) {
                Some(found) => r matches Ok(out) && sorting_of(out.deep_view(), found),
                None => r matches Err(e) && e is InheritedUnknownValue,
            },
    {
        let (auto, edition) = match &self.package {
            Some(p) => (p.autobins, p.edition),
            None => (false, Inheritable::Inherited),
        };
        let mut found = given;
        if auto {
            let (full, partial) = match self.autoset(&mut found, "src/bin", fs) {
                Ok(x) => x,
                Err(e) => {
                    return Err(e);
                },
            };
            let mut partial = partial;
            if src.contains("main.rs") && !full.contains("src/main.rs") {
                let e = match edition {
                    Inheritable::Value(e) => e,
                    Inheritable::Inherited => {
                        return Err(Error::InheritedUnknownValue);
                    },
                };
                let name = match &self.package {
                    Some(p) => p.name.as_str(),
                    None => "",
                };
                let ghost before = found.deep_view();
                let ghost held = partial.deep_view();
                let product = found_product(&mut partial, name, "src/main.rs".to_string(), e);
                found.push(product);
                proof {
                    let t = taken((Seq::empty(), held), name@, "src/main.rs"@, e);
                    assert(t.0[0] == product@);
                    assert(found.deep_view() =~= before.push(product@));
                    assert(taken((before, held), name@, "src/main.rs"@, e).0 =~= before.push(product@));
                }
            }
        }
        Self::sort_products(&mut found);
        Ok(found)
    }

    /// Finds the products of another kind in the directory of the kind and puts them
    /// in order.
    fn find_others(&self, given: Vec<Product>, dir: &str, fs: &Listing, auto: bool) -> (r: Result<
        Vec<Product>,
        Error,
    >)
        requires
            self.package is Some,
        ensures
            match others(given.deep_view(), fs@, dir@, auto, self.package->0.edition) {
                Some(found) => r matches Ok(out) && sorting_of(out.deep_view(), found),
                None => r matches Err(e) && e is InheritedUnknownValue,
            },
    {
        let mut found = given;
        if auto {
            match self.autoset(&mut found, dir, fs) {
                Ok(_) => {},
                Err(e) => {
                    return Err(e);
                },
            }
        }
        Self::sort_products(&mut found);
        Ok(found)
    }

    /// Completes the manifest of a package from the files that lie beside it. See
    /// [`completion`].
    ///
    /// A library is found at `src/lib.rs` unless the manifest names its path. Binaries
    /// are found under `src/bin` and at `src/main.rs`, examples under `examples`, tests
    /// under `tests` and benchmarks under `benches`, each kind unless the package
    /// switches that off, and each kind is put in order. A build script is found at
    /// `build.rs` and a readme at `README.md`, `README.txt` or `README`, unless the
    /// manifest names one or switches it off.
    ///
    /// A manifest without a package is left as it is. Fails with [`Error::Io`] where
    /// `src` could not be read for another reason than that it is not there, or the
    /// package's own directory for any reason; and with
    /// [`Error::InheritedUnknownValue`] where the edition or the readme of the package
    /// is left to the workspace when it is needed. The manifest is changed only where
    /// completing it succeeds.
    pub fn complete_from_abstract_filesystem_inner(&mut self, fs: &Listing) -> (r: Result<(), Error>)
        ensures
            old(self).package is None ==> r is Ok && *final(self) == *old(self),
            old(self).package is Some ==> match completion(*old(self), fs@) {
                Err(Failure::Unread(kind, message)) => r matches Err(Error::Io(e)) && e.kind == kind
                    && e.message@ == message,
                Err(Failure::Unknown) => r matches Err(e) && e is InheritedUnknownValue,
                Ok(c) => {
                    &&& r is Ok
                    &&& final(self).lib.deep_view() == c.lib
                    &&& sorting_of(final(self).bin.deep_view(), c.bin)
                    &&& sorting_of(final(self).example.deep_view(), c.example)
                    &&& sorting_of(final(self).test.deep_view(), c.test)
                    &&& sorting_of(final(self).bench.deep_view(), c.bench)
                    &&& final(self).package is Some
                    &&& build_completed(
                        old(self).package->0.build,
                        c.root.contains("build.rs"@),
                        final(self).package->0.build,
                    )
                    &&& readme_completed(
                        old(self).package->0.readme,
                        c.root,
                        final(self).package->0.readme,
                    )
                    &&& final(self).package->0.name == old(self).package->0.name
                    &&& final(self).package->0.version == old(self).package->0.version
                    &&& final(self).package->0.edition == old(self).package->0.edition
                    &&& final(self).package->0.publish == old(self).package->0.publish
                },
            },
            r is Err ==> *final(self) == *old(self),
            final(self).features == old(self).features,
            final(self).dependencies == old(self).dependencies,
            final(self).build_dependencies == old(self).build_dependencies,
            final(self).dev_dependencies == old(self).dev_dependencies,
            final(self).target == old(self).target,
            final(self).workspace == old(self).workspace,
    {
        let (edition, autoexamples, autotests, autobenches) = match &self.package {
            Some(p) => (p.edition, p.autoexamples, p.autotests, p.autobenches),
            None => {
                return Ok(());
            },
        };
        let src = match read_src(fs) {
            Ok(s) => s,
            Err(e) => {
                return Err(e);
            },
        };
        let old_lib = match &self.lib {
            Some(l) => Some(l.duplicate()),
            None => None,
        };
        let name = match &self.package {
            Some(p) => p.name.as_str(),
            None => "",
        };
        let lib = match complete_library(old_lib, name, edition, src.contains("lib.rs")) {
            Ok(l) => l,
            Err(e) => {
                return Err(e);
            },
        };
        let bin = match self.find_binaries(copy_products(&self.bin), fs, &src) {
            Ok(b) => b,
            Err(e) => {
                return Err(e);
            },
        };
        let example = match self.find_others(copy_products(&self.example), "examples", fs, autoexamples) {
            Ok(b) => b,
            Err(e) => {
                return Err(e);
            },
        };
        let test = match self.find_others(copy_products(&self.test), "tests", fs, autotests) {
            Ok(b) => b,
            Err(e) => {
                return Err(e);
            },
        };
        let bench = match self.find_others(copy_products(&self.bench), "benches", fs, autobenches) {
            Ok(b) => b,
            Err(e) => {
                return Err(e);
            },
        };
        let root = match read_root(fs) {
            Ok(s) => s,
            Err(e) => {
                return Err(e);
            },
        };
        let package = match &mut self.package {
            Some(p) => p,
            None => {
                return Ok(());
            },
        };
        if let Inheritable::Inherited = &package.readme {
            return Err(Error::InheritedUnknownValue);
        }
        let mut build = None;
        std::mem::swap(&mut build, &mut package.build);
        let mut readme = Inheritable::Inherited;
        std::mem::swap(&mut readme, &mut package.readme);
        let (build, readme) = complete_files(build, readme, &root);
        package.build = build;
        package.readme = readme;
        self.lib = lib;
        self.bin = bin;
        self.example = example;
        self.test = test;
        self.bench = bench;
        Ok(())
    }
}

/// Copies of the products.
fn copy_products(v: &Vec<Product>) -> (r: Vec<Product>)
    ensures
        r.deep_view() == v.deep_view(),
{
    let mut r: Vec<Product> = Vec::new();
    let mut i: usize = 0;
    while i < v.len()
        invariant
            i <= v@.len(),
            r@.len() == i,
            forall|j: int| 0 <= j < i ==> r@[j]@ == v@[j]@,
        decreases v@.len() - i,
    {
        r.push(v[i].duplicate());
        i += 1;
    }
    assert(r.deep_view() =~= v.deep_view());
    r
}

} // verus!
