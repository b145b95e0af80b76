//! The registry of changelog sections: each section name owns a list of
//! alias tokens, and a commit's type token resolves to the first section
//! registered with that alias, falling back to `"Unknown"`.

use vstd::prelude::*;

use crate::text::str_eq;

verus! {

/// One section name together with the alias tokens that map onto it.
pub struct Category {
    /// The section name, e.g. `"Features"`.
    pub name: String,
    /// The alias tokens, e.g. `"feat"` and `"ft"`.
    pub aliases: Vec<String>,
}

/// The sections in registration order.  Resolution walks the list front to
/// back, so when two sections claim the same alias the first registration
/// wins, deterministically.
pub struct CategoryRegistry {
    /// The registered sections, in registration order.
    pub categories: Vec<Category>,
}

/// The section name an alias resolves to: the first registered category
/// whose alias list contains the token, or `"Unknown"`.
pub open spec fn spec_resolve(cats: Seq<Category>, alias: Seq<char>) -> Seq<char>
    decreases cats.len(),
{
    if cats.len() == 0 {
        "Unknown"@
    } else if cats[0].aliases.deep_view().contains(alias) {
        cats[0].name@
    } else {
        spec_resolve(cats.drop_first(), alias)
    }
}

/// The index of the first category with the given name, or -1.
pub open spec fn spec_find_name(cats: Seq<Category>, name: Seq<char>) -> int
    decreases cats.len(),
{
    if cats.len() == 0 {
        -1
    } else if cats[0].name@ == name {
        0
    } else {
        let r = spec_find_name(cats.drop_first(), name);
        if r == -1 {
            -1
        } else {
            r + 1
        }
    }
}

/// What registering a category does: replace the first category of the
/// same name, or append a new one.
pub open spec fn spec_register(cats: Seq<Category>, c: Category) -> Seq<Category> {
    let i = spec_find_name(cats, c.name@);
    if i == -1 {
        cats.push(c)
    } else {
        cats.update(i, c)
    }
}

/// No alias is claimed by two different categories.
pub open spec fn aliases_unique(cats: Seq<Category>) -> bool {
    forall|j1: int, j2: int, a: Seq<char>|
        #![trigger cats[j1].aliases.deep_view().contains(a), cats[j2].aliases.deep_view().contains(a)]
        0 <= j1 < j2 < cats.len() ==> !(cats[j1].aliases.deep_view().contains(a)
            && cats[j2].aliases.deep_view().contains(a))
}

/// An alias registered on the category at `i`, and on no earlier one,
/// resolves to that category's name.
pub proof fn lemma_resolve_hit(cats: Seq<Category>, i: int, alias: Seq<char>)
    requires
        0 <= i < cats.len(),
        cats[i].aliases.deep_view().contains(alias),
        forall|j: int| 0 <= j < i ==> !(#[trigger] cats[j].aliases.deep_view().contains(alias)),
    ensures
        spec_resolve(cats, alias) == cats[i].name@,
    decreases i,
{
    if i > 0 {
        let rest = cats.drop_first();
        assert forall|j: int| 0 <= j < i - 1 implies !(#[trigger] rest[j].aliases.deep_view().contains(
            alias,
        )) by {
            assert(rest[j] == cats[j + 1]);
        }
        assert(rest[i - 1] == cats[i]);
        lemma_resolve_hit(rest, i - 1, alias);
    }
}

/// Under a registry with no duplicate aliases, every registered
/// `(category, alias)` pair resolves back to its category.
pub proof fn lemma_resolve_registered(cats: Seq<Category>, i: int, alias: Seq<char>)
    requires
        aliases_unique(cats),
        0 <= i < cats.len(),
        cats[i].aliases.deep_view().contains(alias),
    ensures
        spec_resolve(cats, alias) == cats[i].name@,
{
    assert forall|j: int| 0 <= j < i implies !(#[trigger] cats[j].aliases.deep_view().contains(
        alias,
    )) by {
        if cats[j].aliases.deep_view().contains(alias) {
            assert(cats[j].aliases.deep_view().contains(alias)
                && cats[i].aliases.deep_view().contains(alias));
        }
    }
    lemma_resolve_hit(cats, i, alias);
}

/// An alias registered on no category resolves to `"Unknown"`.
pub proof fn lemma_resolve_unregistered(cats: Seq<Category>, alias: Seq<char>)
    requires
        forall|j: int|
            0 <= j < cats.len() ==> !(#[trigger] cats[j].aliases.deep_view().contains(alias)),
    ensures
        spec_resolve(cats, alias) == "Unknown"@,
    decreases cats.len(),
{
    if cats.len() > 0 {
        let rest = cats.drop_first();
        assert forall|j: int| 0 <= j < rest.len() implies !(#[trigger] rest[j].aliases.deep_view()
            .contains(alias)) by {
            assert(rest[j] == cats[j + 1]);
        }
        lemma_resolve_unregistered(rest, alias);
    }
}

/// Whatever an alias resolves to is `"Unknown"` or the name of some
/// registered category; in particular it is never the empty string when
/// every category name is non-empty.
pub proof fn lemma_resolve_in_names(cats: Seq<Category>, alias: Seq<char>)
    ensures
        spec_resolve(cats, alias) == "Unknown"@ || exists|i: int|
            0 <= i < cats.len() && spec_resolve(cats, alias) == #[trigger] cats[i].name@,
    decreases cats.len(),
{
    if cats.len() > 0 {
        if cats[0].aliases.deep_view().contains(alias) {
            assert(spec_resolve(cats, alias) == cats[0].name@);
        } else {
            let rest = cats.drop_first();
            lemma_resolve_in_names(rest, alias);
            if spec_resolve(rest, alias) != "Unknown"@ {
                let i = choose|i: int|
                    0 <= i < rest.len() && spec_resolve(rest, alias) == #[trigger] rest[i].name@;
                assert(rest[i] == cats[i + 1]);
                assert(spec_resolve(cats, alias) == cats[i + 1].name@);
            }
        }
    }
}

/// Whether an alias list contains the given token.
pub fn aliases_contain(aliases: &Vec<String>, alias: &str) -> (r: bool)
    ensures
        r == aliases.deep_view().contains(alias@),
{
    let n = aliases.len();
    let mut i: usize = 0;
    while i < n
        invariant
            n == aliases@.len(),
            i <= n,
            forall|j: int| 0 <= j < i ==> aliases.deep_view()[j] != alias@,
        decreases n - i,
    {
        if str_eq(aliases[i].as_str(), alias) {
            proof {
                assert(aliases.deep_view()[i as int] == alias@);
            }
            return true;
        }
        i = i + 1;
    }
    false
}

/// The default sections: `Features` with aliases `feat` and `ft`,
/// `Bug Fixes` with `fix` and `fx`, and the alias-less `Breaks` and
/// `Unknown` sections, in that order.
pub open spec fn is_default_registry(cats: Seq<Category>) -> bool {
    &&& cats.len() == 4
    &&& cats[0].name@ == "Features"@
    &&& cats[0].aliases.deep_view() == seq!["feat"@, "ft"@]
    &&& cats[1].name@ == "Bug Fixes"@
    &&& cats[1].aliases.deep_view() == seq!["fix"@, "fx"@]
    &&& cats[2].name@ == "Breaks"@
    &&& cats[2].aliases.deep_view() == Seq::<Seq<char>>::empty()
    &&& cats[3].name@ == "Unknown"@
    &&& cats[3].aliases.deep_view() == Seq::<Seq<char>>::empty()
}

impl CategoryRegistry {
    /// An empty registry; every alias resolves to `"Unknown"`.
    pub fn new() -> (r: CategoryRegistry)
        ensures
            r.categories@.len() == 0,
    {
        CategoryRegistry { categories: Vec::new() }
    }

    /// The default registry: `Features` with aliases `feat` and `ft`,
    /// `Bug Fixes` with `fix` and `fx`, and the alias-less `Breaks` and
    /// `Unknown` sections.
    pub fn with_defaults() -> (r: CategoryRegistry)
        ensures
            is_default_registry(r.categories@),
    {
        let mut feat_aliases: Vec<String> = Vec::new();
        feat_aliases.push(String::from_str("feat"));
        feat_aliases.push(String::from_str("ft"));
        let mut fix_aliases: Vec<String> = Vec::new();
        fix_aliases.push(String::from_str("fix"));
        fix_aliases.push(String::from_str("fx"));
        let mut categories: Vec<Category> = Vec::new();
        categories.push(Category { name: String::from_str("Features"), aliases: feat_aliases });
        categories.push(Category { name: String::from_str("Bug Fixes"), aliases: fix_aliases });
        categories.push(Category { name: String::from_str("Breaks"), aliases: Vec::new() });
        categories.push(Category { name: String::from_str("Unknown"), aliases: Vec::new() });
        let r = CategoryRegistry { categories };
        proof {
            assert(r.categories@[0].aliases.deep_view() =~= seq!["feat"@, "ft"@]);
            assert(r.categories@[1].aliases.deep_view() =~= seq!["fix"@, "fx"@]);
            assert(r.categories@[2].aliases.deep_view() =~= Seq::<Seq<char>>::empty());
            assert(r.categories@[3].aliases.deep_view() =~= Seq::<Seq<char>>::empty());
        }
        r
    }

    /// Adds or replaces the alias list for a category name; replacing
    /// keeps the category's position, adding appends at the end.
    pub fn register(&mut self, name: String, aliases: Vec<String>)
        ensures
            final(self).categories@ == spec_register(
                old(self).categories@,
                (Category { name: name, aliases: aliases }),
            ),
    {
        let ghost cats = self.categories@;
        let n = self.categories.len();
        let mut i: usize = 0;
        while i < n
            invariant
                self.categories@ == cats,
                cats == old(self).categories@,
                n == cats.len(),
                i <= n,
                forall|j: int| 0 <= j < i ==> cats[j].name@ != name@,
            decreases n - i,
        {
            if str_eq(self.categories[i].name.as_str(), name.as_str()) {
                proof {
                    lemma_find_name_hit(cats, i as int, name@);
                }
                self.categories.set(i, Category { name, aliases });
                return ;
            }
            i = i + 1;
        }
        proof {
            lemma_find_name_miss(cats, name@);
        }
        self.categories.push(Category { name, aliases });
    }

    /// The section name the alias token resolves to.
    pub fn resolve(&self, alias: &str) -> (r: String)
        ensures
            r@ == spec_resolve(self.categories@, alias@),
    {
        let cats = &self.categories;
        let n = cats.len();
        let mut i: usize = 0;
        proof {
            assert(cats@.skip(0) =~= cats@);
        }
        while i < n
            invariant
                cats@ == self.categories@,
                n == cats@.len(),
                i <= n,
                spec_resolve(cats@, alias@) == spec_resolve(cats@.skip(i as int), alias@),
            decreases n - i,
        {
            proof {
                assert(cats@.skip(i as int)[0] == cats@[i as int]);
            }
            if aliases_contain(&cats[i].aliases, alias) {
                proof {
                    assert(spec_resolve(cats@.skip(i as int), alias@) == cats@[i as int].name@);
                }
                return cats[i].name.clone();
            }
            proof {
                assert(cats@.skip(i as int).drop_first() =~= cats@.skip(i + 1));
            }
            i = i + 1;
        }
        proof {
            assert(cats@.skip(n as int).len() == 0);
        }
        String::from_str("Unknown")
    }
}

/// A name present first at index `i` is found there.
proof fn lemma_find_name_hit(cats: Seq<Category>, i: int, name: Seq<char>)
    requires
        0 <= i < cats.len(),
        cats[i].name@ == name,
        forall|j: int| 0 <= j < i ==> (#[trigger] cats[j].name@) != name,
    ensures
        spec_find_name(cats, name) == i,
    decreases i,
{
    if i > 0 {
        let rest = cats.drop_first();
        assert forall|j: int| 0 <= j < i - 1 implies (#[trigger] rest[j].name@) != name by {
            assert(rest[j] == cats[j + 1]);
        }
        assert(rest[i - 1] == cats[i]);
        lemma_find_name_hit(rest, i - 1, name);
    }
}

/// A name present nowhere is not found.
proof fn lemma_find_name_miss(cats: Seq<Category>, name: Seq<char>)
    requires
        forall|j: int| 0 <= j < cats.len() ==> (#[trigger] cats[j].name@) != name,
    ensures
        spec_find_name(cats, name) == -1,
    decreases cats.len(),
{
    if cats.len() > 0 {
        let rest = cats.drop_first();
        assert forall|j: int| 0 <= j < rest.len() implies (#[trigger] rest[j].name@) != name by {
            assert(rest[j] == cats[j + 1]);
        }
        lemma_find_name_miss(rest, name);
    }
}

} // verus!
