//! Credentials kept out of logs and wiped from memory when dropped.
use secrecy::ExposeSecret;
use secrecy::SecretString;
use vstd::prelude::*;

verus! {

/// A credential, held in a `secrecy::SecretString`: its memory is wiped when it
/// is dropped, and its debug form does not show it.
#[verifier::external_body]
#[derive(Debug)]
pub struct Secret {
    inner: SecretString,
}

/// The text that a secret holds.
pub uninterp spec fn secret_text(s: Secret) -> Seq<char>;

impl View for Secret {
    type V = Seq<char>;

    open spec fn view(&self) -> Seq<char> {
        secret_text(*self)
    }
}

/// `SecretString::from(String)` boxes the given text as it is.
#[verifier::external_body]
fn conceal(text: String) -> (r: Secret)
    ensures
        secret_text(r) == text@,
{
    Secret { inner: SecretString::from(text) }
}

/// `ExposeSecret::expose_secret` lends the text that was boxed.
#[verifier::external_body]
fn lend(s: &Secret) -> (r: &str)
    ensures
        r@ == secret_text(*s),
{
    s.inner.expose_secret()
}

impl Secret {
    /// The given text as a secret.
    pub fn new(text: String) -> (r: Secret)
        ensures
            r@ == text@,
    {
        conceal(text)
    }

    /// The text, for the one place that needs it.
    pub fn expose(&self) -> (r: &str)
        ensures
            r@ == self@,
    {
        lend(self)
    }
}

impl Clone for Secret {
    /// A secret with the same text.
    fn clone(&self) -> (r: Secret)
        ensures
            r@ == self@,
    {
        conceal(lend(self).to_owned())
    }
}

/// The credentials by the names of their owners, later ones over earlier ones.
pub open spec fn creds_map(v: Seq<(String, Secret)>) -> Map<Seq<char>, Seq<char>>
    decreases v.len(),
{
    if v.len() == 0 {
        Map::empty()
    } else {
        creds_map(v.drop_last()).insert(v.last().0@, v.last().1@)
    }
}

/// The credentials that could be had, by the names of the registrations that they
/// are for.
pub struct ResolvedCreds {
    items: Vec<(String, Secret)>,
}

impl View for ResolvedCreds {
    type V = Map<Seq<char>, Seq<char>>;

    closed spec fn view(&self) -> Map<Seq<char>, Seq<char>> {
        creds_map(self.items@)
    }
}

impl ResolvedCreds {
    /// No credentials.
    pub fn new() -> (r: ResolvedCreds)
        ensures
            r@ == Map::<Seq<char>, Seq<char>>::empty(),
    {
        ResolvedCreds { items: Vec::new() }
    }

    /// Adds the credential of a registration, in place of an earlier one.
    pub fn insert(&mut self, name: String, value: Secret)
        ensures
            final(self)@ == old(self)@.insert(name@, value@),
    {
        let ghost before = self.items@;
        self.items.push((name, value));
        assert(self.items@.drop_last() =~= before);
    }

    /// Adds other credentials, each in place of an earlier one.
    pub fn extend(&mut self, extra: ResolvedCreds)
        ensures
            final(self)@ == old(self)@.union_prefer_right(extra@),
    {
        let items = extra.items;
        let ghost before = self@;
        let mut i: usize = 0;
        assert(items@.take(0) =~= Seq::empty());
        assert(self@ =~= before.union_prefer_right(creds_map(items@.take(0))));
        while i < items.len()
            invariant
                i <= items@.len(),
                self@ == before.union_prefer_right(creds_map(items@.take(i as int))),
            decreases items.len() - i,
        {
            let ghost part = items@.take(i + 1);
            assert(part.drop_last() =~= items@.take(i as int));
            self.insert(items[i].0.clone(), items[i].1.clone());
            assert(self@ =~= before.union_prefer_right(creds_map(part)));
            i = i + 1;
        }
        assert(items@.take(items@.len() as int) =~= items@);
    }

    /// The credential of a registration.
    pub fn get(&self, name: &str) -> (r: Option<&Secret>)
        ensures
            match r {
                Some(s) => self@.contains_key(name@) && self@[name@] == s@,
                None => !self@.contains_key(name@),
            },
    {
        let mut i: usize = self.items.len();
        assert(self.items@.take(i as int) =~= self.items@);
        while i > 0
            invariant
                i <= self.items@.len(),
                self@.contains_key(name@) == creds_map(self.items@.take(i as int)).contains_key(
                    name@,
                ),
                self@.contains_key(name@) ==> self@[name@] == creds_map(
                    self.items@.take(i as int),
                )[name@],
            decreases i,
        {
            let ghost part = self.items@.take(i as int);
            i = i - 1;
            assert(part.drop_last() =~= self.items@.take(i as int));
            assert(part.last() == self.items@[i as int]);
            if crate::text::same(self.items[i].0.as_str(), name) {
                return Some(&self.items[i].1);
            }
        }
        None
    }
}

/// Of several credentials for one registration the last counts, and those for others are not
/// touched by it.
pub proof fn law_last_credential_counts(
    v: Seq<(String, Secret)>,
    c: (String, Secret),
    name: Seq<char>,
)
    ensures
        creds_map(Seq::empty()) == Map::<Seq<char>, Seq<char>>::empty(),
        creds_map(v.push(c)).contains_key(c.0@),
        creds_map(v.push(c))[c.0@] == c.1@,
        name != c.0@ ==> (creds_map(v.push(c)).contains_key(name) <==> creds_map(v).contains_key(
            name,
        )),
        name != c.0@ && creds_map(v).contains_key(name) ==> creds_map(v.push(c))[name]
            == creds_map(v)[name],
{
    assert(v.push(c).drop_last() =~= v);
}

} // verus!
