use vstd::prelude::*;
use vstd::string::StrSliceExecFns;
use vstd::string::StringExecFns;

use crate::text::{chars_of, has_suffix, lower_of, lowercase, run_at, same_text, upper_of, uppercase};

verus! {

/// Where one product's releases live upstream, and the credential that reads them.
#[derive(Clone, Debug)]
pub struct ProductConfig {
    pub github_token: String,
    pub repo_owner: String,
    pub repo_name: String,
}

impl View for ProductConfig {
    /// (token, owner, repository)
    type V = (Seq<char>, Seq<char>, Seq<char>);

    open spec fn view(&self) -> (Seq<char>, Seq<char>, Seq<char>) {
        (self.github_token@, self.repo_owner@, self.repo_name@)
    }
}

/// The map that a list of (name, configuration) entries stands for: a later entry
/// overrides an earlier one with the same name.
pub open spec fn entries_map(entries: Seq<(String, ProductConfig)>) -> Map<
    Seq<char>,
    (Seq<char>, Seq<char>, Seq<char>),
>
    decreases entries.len(),
{
    if entries.len() == 0 {
        Map::empty()
    } else {
        entries_map(entries.drop_last()).insert(entries.last().0@, entries.last().1@)
    }
}

/// The configured products, by lower-case product name.
pub struct ProductTable {
    entries: Vec<(String, ProductConfig)>,
}

impl View for ProductTable {
    type V = Map<Seq<char>, (Seq<char>, Seq<char>, Seq<char>)>;

    closed spec fn view(&self) -> Map<Seq<char>, (Seq<char>, Seq<char>, Seq<char>)> {
        entries_map(self.entries@)
    }
}

/// `s` with every trailing copy of `p` taken off.
pub open spec fn trim_suffixes(s: Seq<char>, p: Seq<char>) -> Seq<char>
    decreases s.len(),
{
    if p.len() > 0 && has_suffix(s, p) {
        trim_suffixes(s.subrange(0, s.len() - p.len()), p)
    } else {
        s
    }
}

/// The value of the first variable named `key`.
pub open spec fn var_of(vars: Seq<(String, String)>, key: Seq<char>) -> Option<Seq<char>>
    decreases vars.len(),
{
    if vars.len() == 0 {
        None
    } else if vars[0].0@ == key {
        Some(vars[0].1@)
    } else {
        var_of(vars.drop_first(), key)
    }
}

/// The product that the variable `key` = `value` configures, if any: a key that ends
/// in `_TOKEN` names the product (lower-cased, every `_TOKEN` suffix taken off), and
/// the product counts only when `<PRODUCT>_OWNER` and `<PRODUCT>_REPO` are set too.
pub open spec fn product_entry(vars: Seq<(String, String)>, key: Seq<char>, value: Seq<char>) -> Option<
    (Seq<char>, (Seq<char>, Seq<char>, Seq<char>)),
> {
    if has_suffix(key, "_TOKEN"@) {
        let product = lower_of(trim_suffixes(key, "_TOKEN"@));
        match (
            var_of(vars, upper_of(product) + "_OWNER"@),
            var_of(vars, upper_of(product) + "_REPO"@),
        ) {
            (Some(owner), Some(repo)) => Some((product, (value, owner, repo))),
            _ => None,
        }
    } else {
        None
    }
}

/// The products that the first `n` variables configure, later ones overriding.
pub open spec fn products_from(vars: Seq<(String, String)>, n: nat) -> Map<
    Seq<char>,
    (Seq<char>, Seq<char>, Seq<char>),
>
    decreases n,
{
    if n == 0 || n > vars.len() {
        Map::empty()
    } else {
        let m = products_from(vars, (n - 1) as nat);
        match product_entry(vars, vars[n - 1].0@, vars[n - 1].1@) {
            Some((k, c)) => m.insert(k, c),
            None => m,
        }
    }
}

/// The value of the first variable named `key`.
pub fn lookup_var(vars: &[(String, String)], key: &str) -> (r: Option<String>)
    ensures
        match r {
            Some(v) => var_of(vars@, key@) == Some(v@),
            None => var_of(vars@, key@) is None,
        },
{
    let mut i: usize = 0;
    proof {
        assert(vars@.subrange(0, vars@.len() as int) =~= vars@);
    }
    while i < vars.len()
        invariant
            i <= vars@.len(),
            var_of(vars@, key@) == var_of(vars@.subrange(i as int, vars@.len() as int), key@),
        decreases vars@.len() - i,
    {
        let ghost rest = vars@.subrange(i as int, vars@.len() as int);
        assert(rest[0] == vars@[i as int]);
        assert(rest.drop_first() =~= vars@.subrange(i + 1, vars@.len() as int));
        if same_text(vars[i].0.as_str(), key) {
            return Some(vars[i].1.clone());
        }
        i = i + 1;
    }
    None
}

/// `s` with every trailing `_TOKEN` taken off.
pub fn trim_token_suffixes(s: &str) -> (r: &str)
    ensures
        r@ == trim_suffixes(s@, "_TOKEN"@),
{
    let chars = chars_of(s);
    let suffix = chars_of("_TOKEN");
    let k = suffix.len();
    let mut n = chars.len();
    proof {
        assert(chars@.subrange(0, n as int) =~= s@);
    }
    while n >= k && run_at(&chars, &suffix, n - k)
        invariant
            chars@ == s@,
            suffix@ == "_TOKEN"@,
            k == suffix@.len(),
            n <= chars@.len(),
            trim_suffixes(s@, "_TOKEN"@) == trim_suffixes(chars@.subrange(0, n as int), "_TOKEN"@),
        decreases n,
    {
        proof {
            reveal_strlit("_TOKEN");
            let t = chars@.subrange(0, n as int);
            assert(t.subrange(t.len() - k, t.len() as int) =~= chars@.subrange(n - k, n as int));
            assert(t.subrange(0, t.len() - k) =~= chars@.subrange(0, n - k));
        }
        n = n - k;
    }
    proof {
        reveal_strlit("_TOKEN");
        let t = chars@.subrange(0, n as int);
        if n >= k {
            assert(t.subrange(t.len() - k, t.len() as int) =~= chars@.subrange(n - k, n as int));
        }
    }
    s.substring_char(0, n)
}

impl ProductTable {
    /// A table with no products.
    pub fn new() -> (t: Self)
        ensures
            t@ == Map::<Seq<char>, (Seq<char>, Seq<char>, Seq<char>)>::empty(),
    {
        ProductTable { entries: Vec::new() }
    }

    /// Sets the configuration of the product `name`.
    pub fn insert(&mut self, name: String, config: ProductConfig)
        ensures
            final(self)@ == old(self)@.insert(name@, config@),
    {
        let ghost before = self.entries@;
        self.entries.push((name, config));
        proof {
            assert(self.entries@.drop_last() =~= before);
        }
    }

    /// The configuration of a product, looked up by its lower-cased name.
    pub fn get(&self, product_name: &str) -> (r: Option<ProductConfig>)
        ensures
            match r {
                Some(c) => self@.contains_key(lower_of(product_name@)) && self@[lower_of(
                    product_name@,
                )] == c@,
                None => !self@.contains_key(lower_of(product_name@)),
            },
    {
        let key = lowercase(product_name);
        let mut i: usize = self.entries.len();
        proof {
            assert(self.entries@.subrange(0, i as int) =~= self.entries@);
        }
        while i > 0
            invariant
                i <= self.entries@.len(),
                key@ == lower_of(product_name@),
                self@.contains_key(key@) == entries_map(
                    self.entries@.subrange(0, i as int),
                ).contains_key(key@),
                self@.contains_key(key@) ==> self@[key@] == entries_map(
                    self.entries@.subrange(0, i as int),
                )[key@],
            decreases i,
        {
            let ghost upto = self.entries@.subrange(0, i as int);
            assert(upto.drop_last() =~= self.entries@.subrange(0, i - 1));
            assert(upto.last() == self.entries@[i - 1]);
            if self.entries[i - 1].0 == key {
                let c = &self.entries[i - 1].1;
                return Some(
                    ProductConfig {
                        github_token: c.github_token.clone(),
                        repo_owner: c.repo_owner.clone(),
                        repo_name: c.repo_name.clone(),
                    },
                );
            }
            i = i - 1;
        }
        None
    }

    /// The products that environment-style variables configure. For every variable
    /// `<NAME>_TOKEN` whose product also has `<NAME>_OWNER` and `<NAME>_REPO` set,
    /// the table maps the lower-cased name to (token, owner, repository).
    pub fn from_vars(vars: &[(String, String)]) -> (t: Self)
        ensures
            t@ == products_from(vars@, vars@.len() as nat),
    {
        let mut table = ProductTable::new();
        let token_suffix = chars_of("_TOKEN");
        let mut i: usize = 0;
        while i < vars.len()
            invariant
                i <= vars@.len(),
                token_suffix@ == "_TOKEN"@,
                table@ == products_from(vars@, i as nat),
            decreases vars@.len() - i,
        {
            let key = vars[i].0.as_str();
            if crate::text::ends_with_chars(&chars_of(key), &token_suffix) {
                let product = lowercase(trim_token_suffixes(key));
                let upper = uppercase(product.as_str());
                let owner_key = upper.clone().concat("_OWNER");
                let repo_key = upper.concat("_REPO");
                let owner = lookup_var(vars, owner_key.as_str());
                let repo = lookup_var(vars, repo_key.as_str());
                match (owner, repo) {
                    (Some(repo_owner), Some(repo_name)) => {
                        let config = ProductConfig {
                            github_token: vars[i].1.clone(),
                            repo_owner,
                            repo_name,
                        };
                        table.insert(product, config);
                    },
                    _ => {},
                }
            }
            i = i + 1;
        }
        table
    }
}

} // verus!
