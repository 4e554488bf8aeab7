use vstd::prelude::*;

use crate::text::{chars_eq, chars_of};

verus! {

/// A router over model providers: picks one by name, or the default.
pub struct ProviderRegistry<P> {
    providers: Vec<(String, P)>,
    default: String,
}

/// The map a list of named providers stands for (a later entry wins).
pub open spec fn entries_map<P>(s: Seq<(String, P)>) -> Map<Seq<char>, P>
    decreases s.len(),
{
    if s.len() == 0 {
        Map::empty()
    } else {
        entries_map(s.drop_last()).insert(s.last().0@, s.last().1)
    }
}

/// No name occurs twice.
pub open spec fn names_unique<P>(s: Seq<(String, P)>) -> bool {
    forall|i: int, j: int| 0 <= i < j < s.len() ==> (#[trigger] s[i]).0@ != (#[trigger] s[j]).0@
}

proof fn lemma_entries_lookup<P>(s: Seq<(String, P)>, i: int)
    requires
        names_unique(s),
        0 <= i < s.len(),
    ensures
        entries_map(s).contains_key(s[i].0@),
        entries_map(s)[s[i].0@] == s[i].1,
    decreases s.len(),
{
    if i < s.len() - 1 {
        let t = s.drop_last();
        assert(names_unique(t)) by {
            assert forall|a: int, b: int| 0 <= a < b < t.len() implies (#[trigger] t[a]).0@ != (
            #[trigger] t[b]).0@ by {
                assert(t[a] == s[a] && t[b] == s[b]);
            }
        }
        assert(t[i] == s[i]);
        lemma_entries_lookup(t, i);
        assert(s[i].0@ != s[s.len() - 1].0@);
    }
}

proof fn lemma_entries_absent<P>(s: Seq<(String, P)>, k: Seq<char>)
    requires
        forall|i: int| 0 <= i < s.len() ==> (#[trigger] s[i]).0@ != k,
    ensures
        !entries_map(s).contains_key(k),
    decreases s.len(),
{
    if s.len() > 0 {
        let t = s.drop_last();
        assert forall|i: int| 0 <= i < t.len() implies (#[trigger] t[i]).0@ != k by {
            assert(t[i] == s[i]);
        }
        lemma_entries_absent(t, k);
        assert(s[s.len() - 1].0@ != k);
    }
}

proof fn lemma_entries_update<P>(s: Seq<(String, P)>, i: int, e: (String, P))
    requires
        names_unique(s),
        0 <= i < s.len(),
        s[i].0@ == e.0@,
    ensures
        entries_map(s.update(i, e)) == entries_map(s).insert(e.0@, e.1),
        names_unique(s.update(i, e)),
    decreases s.len(),
{
    let u = s.update(i, e);
    assert(names_unique(u)) by {
        assert forall|a: int, b: int| 0 <= a < b < u.len() implies (#[trigger] u[a]).0@ != (
        #[trigger] u[b]).0@ by {
            assert(s[a].0@ == u[a].0@ && s[b].0@ == u[b].0@);
        }
    }
    let t = s.drop_last();
    assert(names_unique(t)) by {
        assert forall|a: int, b: int| 0 <= a < b < t.len() implies (#[trigger] t[a]).0@ != (
        #[trigger] t[b]).0@ by {
            assert(t[a] == s[a] && t[b] == s[b]);
        }
    }
    if i == s.len() - 1 {
        assert(u.drop_last() == t);
        assert forall|j: int| 0 <= j < t.len() implies (#[trigger] t[j]).0@ != e.0@ by {
            assert(t[j] == s[j]);
        }
        lemma_entries_absent(t, e.0@);
        assert(entries_map(u) =~= entries_map(s).insert(e.0@, e.1));
    } else {
        lemma_entries_update(t, i, e);
        assert(u.drop_last() == t.update(i, e));
        assert(u.last() == s.last());
        assert(s.last().0@ != e.0@) by {
            assert(s[i].0@ != s[s.len() - 1].0@);
        }
        assert(entries_map(u) =~= entries_map(s).insert(e.0@, e.1));
    }
}

fn entry_named<P>(e: &(String, P), n: &[char]) -> (b: bool)
    ensures
        b == (e.0@ == n@),
{
    chars_eq(chars_of(e.0.as_str()).as_slice(), n)
}

impl<P> ProviderRegistry<P> {
    #[verifier::type_invariant]
    spec fn names_are_unique(&self) -> bool {
        names_unique(self.providers@)
    }

    /// The registered providers, by name.
    pub closed spec fn view_map(&self) -> Map<Seq<char>, P> {
        entries_map(self.providers@)
    }

    /// The name used when none is asked for.
    pub closed spec fn default_name(&self) -> Seq<char> {
        self.default@
    }

    /// An empty registry with the given default name.
    pub fn new(default: String) -> (r: Self)
        ensures
            r.view_map() == Map::<Seq<char>, P>::empty(),
            r.default_name() == default@,
    {
        ProviderRegistry { providers: Vec::new(), default }
    }

    /// Registers a provider under a name, replacing any provider of that name.
    pub fn register(self, name: String, provider: P) -> (r: Self)
        ensures
            r.view_map() == self.view_map().insert(name@, provider),
            r.default_name() == self.default_name(),
    {
        proof {
            use_type_invariant(&self);
        }
        let ProviderRegistry { providers, default } = self;
        let mut providers = providers;
        let n = chars_of(name.as_str());
        let mut i: usize = 0;
        while i < providers.len() && !entry_named(&providers[i], n.as_slice())
            invariant
                0 <= i <= providers@.len(),
                n@ == name@,
                forall|k: int| 0 <= k < i ==> (#[trigger] providers@[k]).0@ != name@,
            decreases providers@.len() - i,
        {
            i = i + 1;
        }
        let ghost old_s = providers@;
        if i < providers.len() {
            proof {
                lemma_entries_update(old_s, i as int, (name, provider));
            }
            providers.set(i, (name, provider));
            assert(providers@ == old_s.update(i as int, (name, provider)));
        } else {
            providers.push((name, provider));
            proof {
                assert(providers@.drop_last() == old_s);
                assert(names_unique(providers@)) by {
                    assert forall|a: int, b: int| 0 <= a < b < providers@.len() implies (
                    #[trigger] providers@[a]).0@ != (#[trigger] providers@[b]).0@ by {
                        if b < old_s.len() {
                            assert(providers@[a] == old_s[a] && providers@[b] == old_s[b]);
                        } else {
                            assert(providers@[a] == old_s[a]);
                        }
                    }
                }
            }
        }
        ProviderRegistry { providers, default }
    }

    /// The provider of the given name, or of the default name.
    pub fn get(&self, name: Option<&str>) -> (r: Option<&P>)
        ensures
            ({
                let key = match name {
                    Some(n) => n@,
                    None => self.default_name(),
                };
                match r {
                    Some(p) => self.view_map().contains_key(key) && *p == self.view_map()[key],
                    None => !self.view_map().contains_key(key),
                }
            }),
    {
        proof {
            use_type_invariant(self);
        }
        let key = match name {
            Some(n) => chars_of(n),
            None => chars_of(self.default.as_str()),
        };
        let mut i: usize = 0;
        while i < self.providers.len()
            invariant
                0 <= i <= self.providers@.len(),
                names_unique(self.providers@),
                key@ == (match name {
                    Some(n) => n@,
                    None => self.default_name(),
                }),
                forall|k: int| 0 <= k < i ==> (#[trigger] self.providers@[k]).0@ != key@,
            decreases self.providers@.len() - i,
        {
            if chars_eq(chars_of(self.providers[i].0.as_str()).as_slice(), key.as_slice()) {
                proof {
                    lemma_entries_lookup(self.providers@, i as int);
                }
                return Some(&self.providers[i].1);
            }
            i = i + 1;
        }
        proof {
            lemma_entries_absent(self.providers@, key@);
        }
        None
    }
}

/// What a lookup gives back after a registration: the provider just
/// registered under its name, and what it gave before under any other name.
pub proof fn lemma_lookup_after_register<P>(
    before: Map<Seq<char>, P>,
    name: Seq<char>,
    provider: P,
    other: Seq<char>,
)
    ensures
        before.insert(name, provider).contains_key(name),
        before.insert(name, provider)[name] == provider,
        other != name ==> (before.insert(name, provider).contains_key(other)
            == before.contains_key(other)),
        other != name && before.contains_key(other) ==> before.insert(name, provider)[other]
            == before[other],
{
}

} // verus!
