//! What a package builds: its library, binaries, examples, tests and benchmarks.

use vstd::prelude::*;
use crate::package::Edition;

verus! {

/// One thing that a package builds.
#[derive(Debug, Clone, PartialEq, Eq)]
pub struct Product {
    /// Where its source lies, relative to the manifest.
    pub path: Option<String>,
    /// The name of what is built. A library's defaults to the package's name with
    /// `_` for `-`.
    pub name: Option<String>,
    /// Whether unit tests are built for it.
    pub test: bool,
    /// Whether documentation tests are built for it.
    pub doctest: bool,
    /// Whether benchmarks are built for it.
    pub bench: bool,
    /// Whether it is documented.
    pub doc: bool,
    /// Whether it is a compiler plugin.
    pub plugin: bool,
    /// Whether it is a procedural macro.
    pub proc_macro: bool,
    /// Whether the test harness is used.
    pub harness: bool,
    /// The edition it is compiled with.
    pub edition: Edition,
    /// The kinds of library to build.
    pub crate_type: Vec<String>,
    /// The features without which it is not built.
    pub required_features: Vec<String>,
}

/// The model of a [`Product`].
pub struct ProductView {
    pub path: Option<Seq<char>>,
    pub name: Option<Seq<char>>,
    pub test: bool,
    pub doctest: bool,
    pub bench: bool,
    pub doc: bool,
    pub plugin: bool,
    pub proc_macro: bool,
    pub harness: bool,
    pub edition: Edition,
    pub crate_type: Seq<Seq<char>>,
    pub required_features: Seq<Seq<char>>,
}

impl DeepView for Product {
    type V = ProductView;

    open spec fn deep_view(&self) -> ProductView {
        ProductView {
            path: self.path.deep_view(),
            name: self.name.deep_view(),
            test: self.test,
            doctest: self.doctest,
            bench: self.bench,
            doc: self.doc,
            plugin: self.plugin,
            proc_macro: self.proc_macro,
            harness: self.harness,
            edition: self.edition,
            crate_type: self.crate_type.deep_view(),
            required_features: self.required_features.deep_view(),
        }
    }
}

impl View for Product {
    type V = ProductView;

    open spec fn view(&self) -> ProductView {
        self.deep_view()
    }
}

/// The product that a manifest declares where it says nothing of it.
pub open spec fn blank_product() -> ProductView {
    ProductView {
        path: None,
        name: None,
        test: true,
        doctest: true,
        bench: true,
        doc: true,
        plugin: false,
        proc_macro: false,
        harness: true,
        edition: Edition::E2015,
        crate_type: Seq::empty(),
        required_features: Seq::empty(),
    }
}

impl Default for Product {
    fn default() -> (r: Self)
        ensures
            r@ == blank_product(),
            r.path is None,
            r.name is None,
            r.test,
            r.doctest,
            r.bench,
            r.doc,
            r.harness,
            !r.plugin,
            !r.proc_macro,
            r.required_features@.len() == 0,
            r.crate_type@.len() == 0,
            r.edition == Edition::E2015,
    {
        let r = Product {
            path: None,
            name: None,
            test: true,
            doctest: true,
            bench: true,
            doc: true,
            harness: true,
            plugin: false,
            proc_macro: false,
            required_features: Vec::new(),
            crate_type: Vec::new(),
            edition: Edition::E2015,
        };
        proof {
            assert(r.required_features.deep_view() =~= Seq::<Seq<char>>::empty());
            assert(r.crate_type.deep_view() =~= Seq::<Seq<char>>::empty());
        }
        r
    }
}

} // verus!
