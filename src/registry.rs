//! A registry of weather providers by name, listed in name order.
use vstd::prelude::*;

verus! {

/// Lexicographic order on names, character by character (the order of `str`).
pub open spec fn name_lt(a: Seq<char>, b: Seq<char>) -> bool
    decreases a.len(),
{
    if a.len() == 0 {
        b.len() > 0
    } else if b.len() == 0 {
        false
    } else if a[0] != b[0] {
        a[0] < b[0]
    } else {
        name_lt(a.drop_first(), b.drop_first())
    }
}

/// Every name comes strictly before the ones after it.
pub open spec fn strictly_sorted(s: Seq<Seq<char>>) -> bool {
    forall|i: int, j: int| 0 <= i < j < s.len() ==> name_lt(#[trigger] s[i], #[trigger] s[j])
}

pub proof fn lemma_name_lt_irreflexive(a: Seq<char>)
    ensures
        !name_lt(a, a),
    decreases a.len(),
{
    if a.len() > 0 {
        lemma_name_lt_irreflexive(a.drop_first());
    }
}

pub proof fn lemma_name_lt_transitive(a: Seq<char>, b: Seq<char>, c: Seq<char>)
    requires
        name_lt(a, b),
        name_lt(b, c),
    ensures
        name_lt(a, c),
    decreases a.len(),
{
    if a.len() > 0 && b.len() > 0 && c.len() > 0 {
        if a[0] == b[0] && b[0] == c[0] {
            lemma_name_lt_transitive(a.drop_first(), b.drop_first(), c.drop_first());
        }
    }
}

/// Past a common prefix of length `i`, the order is decided by what follows it.
proof fn lemma_name_lt_common_prefix(a: Seq<char>, b: Seq<char>, i: int)
    requires
        0 <= i <= a.len(),
        i <= b.len(),
        forall|j: int| 0 <= j < i ==> a[j] == b[j],
    ensures
        name_lt(a, b) == name_lt(a.skip(i), b.skip(i)),
    decreases i,
{
    if i == 0 {
        assert(a.skip(0) =~= a);
        assert(b.skip(0) =~= b);
    } else {
        lemma_name_lt_common_prefix(a.drop_first(), b.drop_first(), i - 1);
        assert(a.drop_first().skip(i - 1) =~= a.skip(i));
        assert(b.drop_first().skip(i - 1) =~= b.skip(i));
    }
}

/// Compares two names: negative, zero or positive as `a` comes before, equals or
/// comes after `b`.
pub fn compare_names(a: &str, b: &str) -> (r: i8)
    ensures
        r == 0 <==> a@ == b@,
        r < 0 <==> name_lt(a@, b@),
        r > 0 <==> name_lt(b@, a@),
{
    let la = a.unicode_len();
    let lb = b.unicode_len();
    let mut i: usize = 0;
    while i < la && i < lb
        invariant
            la == a@.len(),
            lb == b@.len(),
            i <= la,
            i <= lb,
            forall|j: int| 0 <= j < i ==> a@[j] == b@[j],
        decreases la - i,
    {
        let ca = a.get_char(i);
        let cb = b.get_char(i);
        if ca != cb {
            proof {
                lemma_name_lt_common_prefix(a@, b@, i as int);
                lemma_name_lt_common_prefix(b@, a@, i as int);
                assert(a@.skip(i as int)[0] == ca);
                assert(b@.skip(i as int)[0] == cb);
                assert(a@[i as int] != b@[i as int]);
            }
            if ca < cb {
                return -1;
            } else {
                return 1;
            }
        }
        i = i + 1;
    }
    proof {
        lemma_name_lt_common_prefix(a@, b@, i as int);
        lemma_name_lt_common_prefix(b@, a@, i as int);
    }
    if i == la && i == lb {
        proof {
            assert(a@ =~= b@);
            lemma_name_lt_irreflexive(a@);
        }
        0
    } else if i == la {
        proof {
            assert(a@ != b@);
        }
        -1
    } else {
        proof {
            assert(a@ != b@);
        }
        1
    }
}

/// Providers of type `P`, each under a distinct name.
pub struct ProviderRegistry<P> {
    names: Vec<String>,
    providers: Vec<P>,
}

impl<P> ProviderRegistry<P> {
    /// The registered names, in the order they are kept (ascending).
    pub closed spec fn names_view(&self) -> Seq<Seq<char>> {
        self.names@.map_values(|s: String| s@)
    }

    /// The registered providers by name.
    pub closed spec fn view(&self) -> Map<Seq<char>, P> {
        Map::new(
            |k: Seq<char>| self.names_view().contains(k),
            |k: Seq<char>| self.providers@[self.names_view().index_of(k)],
        )
    }

    /// The names are in strictly ascending order, one provider for each.
    pub closed spec fn wf(&self) -> bool {
        &&& self.names@.len() == self.providers@.len()
        &&& strictly_sorted(self.names_view())
    }

    proof fn lemma_lookup(&self, i: int)
        requires
            self.wf(),
            0 <= i < self.names@.len(),
        ensures
            self@.contains_key(self.names_view()[i]),
            self@[self.names_view()[i]] == self.providers@[i],
    {
        let ns = self.names_view();
        let k = ns[i];
        assert(ns.contains(k));
        let j = ns.index_of(k);
        if j != i {
            if j < i {
                assert(name_lt(ns[j], ns[i]));
            } else {
                assert(name_lt(ns[i], ns[j]));
            }
            lemma_name_lt_irreflexive(k);
        }
    }

    /// An empty registry.
    pub fn new() -> (r: Self)
        ensures
            r.wf(),
            r@ == Map::<Seq<char>, P>::empty(),
            r.names_view() == Seq::<Seq<char>>::empty(),
    {
        let r = ProviderRegistry { names: Vec::new(), providers: Vec::new() };
        proof {
            assert(r.names_view() =~= Seq::<Seq<char>>::empty());
            assert(r@ =~= Map::<Seq<char>, P>::empty());
        }
        r
    }

    /// Registers `provider` under `name`, replacing the provider already there.
    pub fn register(&mut self, name: &str, provider: P)
        requires
            old(self).wf(),
        ensures
            final(self).wf(),
            final(self)@ == old(self)@.insert(name@, provider),
    {
        let n = self.names.len();
        let mut j: usize = 0;
        let mut stop = false;
        while !stop && j < n
            invariant
                self == old(self),
                n == self.names@.len(),
                self.wf(),
                j <= n,
                forall|x: int| 0 <= x < j ==> name_lt(#[trigger] self.names_view()[x], name@),
                stop ==> j < n && !name_lt(self.names_view()[j as int], name@),
            decreases n - j, if stop { 0int } else { 1int },
        {
            let c = compare_names(self.names[j].as_str(), name);
            if c >= 0 {
                stop = true;
            } else {
                j = j + 1;
            }
        }
        let ghost old_names = self.names_view();
        let ghost old_map = self@;
        if j < n && compare_names(self.names[j].as_str(), name) == 0 {
            self.providers.set(j, provider);
            proof {
                assert(self.names_view() =~= old_names);
                assert(old_names[j as int] == name@);
                assert(old_names.contains(name@));
                assert forall|k: Seq<char>| #[trigger] self@.contains_key(k) == old_map.insert(name@, provider).contains_key(k) by {}
                assert forall|k: Seq<char>| self@.contains_key(k) implies #[trigger] self@[k] == old_map.insert(name@, provider)[k] by {
                    let i = old_names.index_of(k);
                    self.lemma_lookup(i);
                    if k == name@ {
                        self.lemma_lookup(j as int);
                    } else {
                        old(self).lemma_lookup(i);
                    }
                }
                assert(self@ =~= old_map.insert(name@, provider));
            }
        } else {
            proof {
                if j < n {
                    assert(name_lt(name@, old_names[j as int]));
                }
            }
            self.names.insert(j, name.to_string());
            self.providers.insert(j, provider);
            proof {
                let ns = self.names_view();
                assert(ns =~= old_names.insert(j as int, name@));
                assert forall|a: int, b: int| 0 <= a < b < ns.len() implies name_lt(#[trigger] ns[a], #[trigger] ns[b]) by {
                    if b < j {
                    } else if b == j {
                    } else if a < j {
                        assert(ns[b] == old_names[b - 1]);
                        if j < n {
                            if b - 1 > j {
                                assert(name_lt(old_names[j as int], old_names[b - 1]));
                                lemma_name_lt_transitive(name@, old_names[j as int], old_names[b - 1]);
                            }
                            lemma_name_lt_transitive(ns[a], name@, ns[b]);
                        }
                    } else if a == j {
                        assert(ns[b] == old_names[b - 1]);
                        if b - 1 > j {
                            assert(name_lt(old_names[j as int], old_names[b - 1]));
                            lemma_name_lt_transitive(name@, old_names[j as int], old_names[b - 1]);
                        }
                    } else {
                        assert(ns[a] == old_names[a - 1]);
                        assert(ns[b] == old_names[b - 1]);
                    }
                }
                assert(self.wf());
                assert forall|k: Seq<char>| #[trigger] self@.contains_key(k) == old_map.insert(name@, provider).contains_key(k) by {
                    if old_map.contains_key(k) {
                        let i = old_names.index_of(k);
                        if i < j {
                            assert(ns[i] == k);
                        } else {
                            assert(ns[i + 1] == k);
                        }
                    }
                    if k == name@ {
                        assert(ns[j as int] == k);
                    }
                    if self@.contains_key(k) {
                        let i = ns.index_of(k);
                        if i < j {
                            assert(old_names[i] == k);
                        } else if i > j {
                            assert(old_names[i - 1] == k);
                        }
                    }
                }
                assert forall|k: Seq<char>| self@.contains_key(k) implies #[trigger] self@[k] == old_map.insert(name@, provider)[k] by {
                    let i = ns.index_of(k);
                    self.lemma_lookup(i);
                    if i < j {
                        assert(old_names[i] == k);
                        assert(self.providers@[i] == old(self).providers@[i]);
                        old(self).lemma_lookup(i);
                        if k == name@ {
                            assert(name_lt(ns[i], ns[j as int]));
                            lemma_name_lt_irreflexive(k);
                        }
                    } else if i > j {
                        assert(old_names[i - 1] == k);
                        assert(self.providers@[i] == old(self).providers@[i - 1]);
                        old(self).lemma_lookup(i - 1);
                        if k == name@ {
                            assert(name_lt(ns[j as int], ns[i]));
                            lemma_name_lt_irreflexive(k);
                        }
                    } else {
                        assert(k == name@);
                        assert(self.providers@[j as int] == provider);
                    }
                }
                assert(self@ =~= old_map.insert(name@, provider));
            }
        }
    }

    /// The provider registered under `name`, if any.
    pub fn get(&self, name: &str) -> (r: Option<&P>)
        requires
            self.wf(),
        ensures
            r is Some <==> self@.contains_key(name@),
            r matches Some(p) ==> *p == self@[name@],
    {
        let n = self.names.len();
        let mut i: usize = 0;
        while i < n
            invariant
                n == self.names@.len(),
                self.wf(),
                i <= n,
                forall|x: int| 0 <= x < i ==> #[trigger] self.names_view()[x] != name@,
            decreases n - i,
        {
            if compare_names(self.names[i].as_str(), name) == 0 {
                proof {
                    self.lemma_lookup(i as int);
                }
                return Some(&self.providers[i]);
            }
            i = i + 1;
        }
        None
    }

    /// Whether no provider is registered.
    pub fn is_empty(&self) -> (r: bool)
        requires
            self.wf(),
        ensures
            r <==> self@ == Map::<Seq<char>, P>::empty(),
            r <==> self.names_view().len() == 0,
    {
        let r = self.names.len() == 0;
        proof {
            if r {
                assert(self@ =~= Map::<Seq<char>, P>::empty());
            } else {
                let k = self.names_view()[0];
                assert(self.names_view().contains(k));
                assert(self@.contains_key(k));
                assert(!Map::<Seq<char>, P>::empty().contains_key(k));
            }
        }
        r
    }

    /// All registered names, in ascending order.
    pub fn list_providers(&self) -> (r: Vec<String>)
        requires
            self.wf(),
        ensures
            r@.map_values(|s: String| s@) == self.names_view(),
            strictly_sorted(self.names_view()),
            forall|k: Seq<char>| self.names_view().contains(k) <==> #[trigger] self@.contains_key(k),
    {
        let mut r: Vec<String> = Vec::new();
        let n = self.names.len();
        let mut i: usize = 0;
        while i < n
            invariant
                n == self.names@.len(),
                i <= n,
                r@.len() == i,
                forall|x: int| 0 <= x < i ==> #[trigger] r@[x]@ == self.names@[x]@,
            decreases n - i,
        {
            r.push(self.names[i].clone());
            i = i + 1;
        }
        proof {
            assert(r@.map_values(|s: String| s@) =~= self.names_view());
        }
        r
    }
}

/// After `name` is registered with `provider`, looking `name` up finds that provider,
/// and any other name is found exactly when it was found before, with the same provider.
pub proof fn law_resolve_after_register<P>(
    before: ProviderRegistry<P>,
    after: ProviderRegistry<P>,
    name: Seq<char>,
    provider: P,
    other: Seq<char>,
)
    requires
        after@ == before@.insert(name, provider),
    ensures
        after@.contains_key(name),
        after@[name] == provider,
        other != name ==> (after@.contains_key(other) <==> before@.contains_key(other)),
        other != name && before@.contains_key(other) ==> after@[other] == before@[other],
{
}

/// Registering the same name twice keeps only the second provider.
pub proof fn law_register_overwrites<P>(
    start: ProviderRegistry<P>,
    mid: ProviderRegistry<P>,
    end: ProviderRegistry<P>,
    name: Seq<char>,
    first: P,
    second: P,
)
    requires
        mid@ == start@.insert(name, first),
        end@ == mid@.insert(name, second),
    ensures
        end@[name] == second,
        end@ == start@.insert(name, second),
{
    assert(end@ =~= start@.insert(name, second));
}

/// An empty registry lists no names; after two distinct names are registered into it,
/// it lists exactly those two, in ascending order.
pub proof fn law_list_two_names<P>(
    empty: ProviderRegistry<P>,
    one: ProviderRegistry<P>,
    two: ProviderRegistry<P>,
    a: Seq<char>,
    pa: P,
    b: Seq<char>,
    pb: P,
)
    requires
        empty.wf(),
        one.wf(),
        two.wf(),
        empty@ == Map::<Seq<char>, P>::empty(),
        one@ == empty@.insert(a, pa),
        two@ == one@.insert(b, pb),
        a != b,
    ensures
        empty.names_view().len() == 0,
        two.names_view() == (if name_lt(a, b) {
            seq![a, b]
        } else {
            seq![b, a]
        }),
{
    let e = empty.names_view();
    if e.len() > 0 {
        assert(e.contains(e[0]));
        assert(empty@.contains_key(e[0]));
    }
    let ns = two.names_view();
    assert(two@.contains_key(a));
    assert(two@.contains_key(b));
    assert(ns.contains(a));
    assert(ns.contains(b));
    assert forall|i: int| 0 <= i < ns.len() implies #[trigger] ns[i] == a || ns[i] == b by {
        assert(ns.contains(ns[i]));
        assert(two@.contains_key(ns[i]));
    }
    let ia = ns.index_of(a);
    let ib = ns.index_of(b);
    if ns.len() > 2 {
        let x = if ns[0] == ns[1] {
            1int
        } else if ns[0] == ns[2] {
            2int
        } else {
            assert(ns[1] == ns[2]);
            2int
        };
        let y = if x == 1 || ns[0] == ns[2] {
            0int
        } else {
            1int
        };
        assert(name_lt(ns[y], ns[x]));
        lemma_name_lt_irreflexive(ns[x]);
    }
    assert(ns.len() == 2);
    if name_lt(a, b) {
        if ia == 1 {
            assert(ib == 0);
            assert(name_lt(ns[0], ns[1]));
            lemma_name_lt_transitive(a, b, a);
            lemma_name_lt_irreflexive(a);
        }
        assert(ns =~= seq![a, b]);
    } else {
        if ia == 0 {
            assert(ib == 1);
            assert(name_lt(ns[0], ns[1]));
        }
        assert(ns =~= seq![b, a]);
    }
}

/// A registry that holds exactly one name lists exactly that name.
pub proof fn law_list_one_name<P>(reg: ProviderRegistry<P>, a: Seq<char>)
    requires
        reg.wf(),
        forall|k: Seq<char>| reg@.contains_key(k) <==> k == a,
    ensures
        reg.names_view() == seq![a],
{
    let ns = reg.names_view();
    assert(reg@.contains_key(a));
    assert(ns.contains(a));
    assert forall|i: int| 0 <= i < ns.len() implies #[trigger] ns[i] == a by {
        assert(ns.contains(ns[i]));
        assert(reg@.contains_key(ns[i]));
    }
    if ns.len() > 1 {
        assert(name_lt(ns[0], ns[1]));
        lemma_name_lt_irreflexive(a);
    }
    assert(ns =~= seq![a]);
}

/// The providers by name after registering `pairs`, in order, into an empty registry
/// (each step as `register` states it).
pub open spec fn registered<P>(pairs: Seq<(Seq<char>, P)>) -> Map<Seq<char>, P>
    decreases pairs.len(),
{
    if pairs.len() == 0 {
        Map::empty()
    } else {
        registered(pairs.drop_last()).insert(pairs.last().0, pairs.last().1)
    }
}

/// After registering `pairs` in order into an empty registry, a name resolves exactly when
/// it was registered, and then to the provider registered under it last.
pub proof fn law_resolve_registered<P>(pairs: Seq<(Seq<char>, P)>, name: Seq<char>, i: int)
    ensures
        registered(pairs).contains_key(name) <==> exists|j: int|
            0 <= j < pairs.len() && (#[trigger] pairs[j]).0 == name,
        0 <= i < pairs.len() && pairs[i].0 == name && (forall|j: int|
            i < j < pairs.len() ==> (#[trigger] pairs[j]).0 != name) ==> registered(pairs)[name]
            == pairs[i].1,
    decreases pairs.len(),
{
    if pairs.len() > 0 {
        let rest = pairs.drop_last();
        let n = pairs.len() - 1;
        law_resolve_registered(rest, name, i);
        if exists|j: int| 0 <= j < rest.len() && (#[trigger] rest[j]).0 == name {
            let j = choose|j: int| 0 <= j < rest.len() && (#[trigger] rest[j]).0 == name;
            assert(pairs[j] == rest[j]);
        }
        if exists|j: int| 0 <= j < pairs.len() && (#[trigger] pairs[j]).0 == name {
            let j = choose|j: int| 0 <= j < pairs.len() && (#[trigger] pairs[j]).0 == name;
            if j < n {
                assert(rest[j] == pairs[j]);
            }
        }
        if 0 <= i < n && pairs[i].0 == name && (forall|j: int|
            i < j < pairs.len() ==> (#[trigger] pairs[j]).0 != name) {
            assert(pairs[n].0 != name);
            assert(rest[i] == pairs[i]);
            assert forall|j: int| i < j < rest.len() implies (#[trigger] rest[j]).0 != name by {
                assert(rest[j] == pairs[j]);
            }
        }
    }
}

} // verus!
