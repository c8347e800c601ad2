//! A map keyed by client ID.
use crate::request::clone_text;
use vstd::prelude::*;

verus! {

/// A map from client IDs to values.
///
/// The pairs stand in the order in which the clients were first recorded, each client once.
#[derive(Debug)]
pub struct ClientMap<V> {
    pairs: Vec<(String, V)>,
}

/// No client occurs twice among the pairs.
pub open spec fn distinct_clients<V>(pairs: Seq<(String, V)>) -> bool {
    forall|i: int, j: int| 0 <= i < j < pairs.len() ==> (#[trigger] pairs[i]).0@ != (#[trigger] pairs[j]).0@
}

/// `pairs` gives a value for `client`.
pub open spec fn lists_client<V>(pairs: Seq<(String, V)>, client: Seq<char>) -> bool {
    exists|i: int| 0 <= i < pairs.len() && (#[trigger] pairs[i]).0@ == client
}

/// The map that the pairs list.
pub open spec fn pairs_map<V>(pairs: Seq<(String, V)>) -> Map<Seq<char>, V> {
    Map::new(
        |client: Seq<char>| lists_client(pairs, client),
        |client: Seq<char>| pairs[choose|i: int| 0 <= i < pairs.len() && (#[trigger] pairs[i]).0@ == client].1,
    )
}

/// Where no client occurs twice, the map gives each client the value that stands beside it.
proof fn lemma_pair_at<V>(pairs: Seq<(String, V)>, i: int)
    requires
        distinct_clients(pairs),
        0 <= i < pairs.len(),
    ensures
        pairs_map(pairs).contains_pair(pairs[i].0@, pairs[i].1),
{
    let client = pairs[i].0@;
    let j = choose|j: int| 0 <= j < pairs.len() && (#[trigger] pairs[j]).0@ == client;
    assert(i == j);
}

/// A client that did not occur is added by a pair at the end.
proof fn lemma_add_pair<V>(pairs: Seq<(String, V)>, client: String, value: V)
    requires
        distinct_clients(pairs),
        !lists_client(pairs, client@),
    ensures
        distinct_clients(pairs.push((client, value))),
        pairs_map(pairs.push((client, value))) == pairs_map(pairs).insert(client@, value),
{
    let after = pairs.push((client, value));
    assert forall|c: Seq<char>| lists_client(after, c) == (lists_client(pairs, c) || c == client@) by {
        if lists_client(pairs, c) {
            let i = choose|i: int| 0 <= i < pairs.len() && (#[trigger] pairs[i]).0@ == c;
            assert(after[i].0@ == c);
        }
        assert(after[pairs.len() as int].0@ == client@);
    }
    assert forall|c: Seq<char>| lists_client(after, c) implies #[trigger] pairs_map(after)[c]
        == pairs_map(pairs).insert(client@, value)[c] by {
        let i = choose|i: int| 0 <= i < after.len() && (#[trigger] after[i]).0@ == c;
        lemma_pair_at(after, i);
        if i < pairs.len() {
            lemma_pair_at(pairs, i);
        }
    }
    assert(pairs_map(after) =~= pairs_map(pairs).insert(client@, value));
}

/// The value of a client that occurs is replaced in its place.
proof fn lemma_replace_pair<V>(pairs: Seq<(String, V)>, i: int, client: String, value: V)
    requires
        distinct_clients(pairs),
        0 <= i < pairs.len(),
        pairs[i].0@ == client@,
    ensures
        distinct_clients(pairs.update(i, (client, value))),
        pairs_map(pairs.update(i, (client, value))) == pairs_map(pairs).insert(client@, value),
{
    let after = pairs.update(i, (client, value));
    assert forall|j: int| 0 <= j < pairs.len() implies (#[trigger] after[j]).0@ == pairs[j].0@ by {}
    assert forall|c: Seq<char>| lists_client(after, c) == lists_client(pairs, c) by {
        if lists_client(pairs, c) {
            let j = choose|j: int| 0 <= j < pairs.len() && (#[trigger] pairs[j]).0@ == c;
            assert(after[j].0@ == c);
        }
        if lists_client(after, c) {
            let j = choose|j: int| 0 <= j < after.len() && (#[trigger] after[j]).0@ == c;
            assert(pairs[j].0@ == c);
        }
    }
    assert(pairs[i].0@ == client@);
    assert forall|c: Seq<char>| lists_client(after, c) implies #[trigger] pairs_map(after)[c]
        == pairs_map(pairs).insert(client@, value)[c] by {
        let j = choose|j: int| 0 <= j < after.len() && (#[trigger] after[j]).0@ == c;
        lemma_pair_at(after, j);
        lemma_pair_at(pairs, j);
    }
    assert(pairs_map(after) =~= pairs_map(pairs).insert(client@, value));
}

impl<V> View for ClientMap<V> {
    type V = Map<Seq<char>, V>;

    closed spec fn view(&self) -> Map<Seq<char>, V> {
        pairs_map(self.pairs@)
    }
}

impl<V> ClientMap<V> {
    #[verifier::type_invariant]
    spec fn well_formed(self) -> bool {
        distinct_clients(self.pairs@)
    }

    /// A map without clients.
    pub fn new() -> (map: Self)
        ensures
            map@ == Map::<Seq<char>, V>::empty(),
    {
        let map = ClientMap { pairs: Vec::new() };
        assert(map@ =~= Map::<Seq<char>, V>::empty());
        map
    }

    /// The place of a client among the pairs.
    fn position(&self, client: &String) -> (place: Option<usize>)
        ensures
            match place {
                Some(i) => i < self.pairs@.len() && self.pairs@[i as int].0@ == client@,
                None => !lists_client(self.pairs@, client@),
            },
    {
        let mut i: usize = 0;
        while i < self.pairs.len()
            invariant
                i <= self.pairs@.len(),
                forall|j: int| 0 <= j < i ==> (#[trigger] self.pairs@[j]).0@ != client@,
            decreases self.pairs@.len() - i,
        {
            if self.pairs[i].0 == *client {
                return Some(i);
            }
            i += 1;
        }
        None
    }

    /// The value recorded for a client.
    pub fn get(&self, client: &String) -> (value: Option<&V>)
        ensures
            match value {
                Some(v) => self@.contains_pair(client@, *v),
                None => !self@.contains_key(client@),
            },
    {
        proof {
            use_type_invariant(self);
        }
        match self.position(client) {
            Some(i) => {
                proof {
                    lemma_pair_at(self.pairs@, i as int);
                }
                Some(&self.pairs[i].1)
            },
            None => None,
        }
    }

    /// Records a value for a client and gives back the value that it replaces.
    pub fn insert(&mut self, client: String, value: V) -> (previous: Option<V>)
        ensures
            final(self)@ == old(self)@.insert(client@, value),
            match previous {
                Some(v) => old(self)@.contains_pair(client@, v),
                None => !old(self)@.contains_key(client@),
            },
    {
        proof {
            use_type_invariant(&*self);
        }
        let place = self.position(&client);
        let ghost before = self.pairs@;
        let mut pairs: Vec<(String, V)> = Vec::new();
        std::mem::swap(&mut pairs, &mut self.pairs);
        let previous = match place {
            Some(i) => {
                proof {
                    lemma_pair_at(before, i as int);
                    lemma_replace_pair(before, i as int, client, value);
                }
                let mut pair = (client, value);
                std::mem::swap(&mut pair, &mut pairs[i]);
                Some(pair.1)
            },
            None => {
                proof {
                    lemma_add_pair(before, client, value);
                }
                pairs.push((client, value));
                None
            },
        };
        self.pairs = pairs;
        previous
    }

    /// The clients and their values, each client once.
    pub fn pairs(&self) -> (pairs: &Vec<(String, V)>)
        ensures
            distinct_clients(pairs@),
            pairs_map(pairs@) == self@,
    {
        proof {
            use_type_invariant(self);
        }
        &self.pairs
    }
}

impl Clone for ClientMap<String> {
    fn clone(&self) -> (copy: Self)
        ensures
            copy@ == self@,
    {
        proof {
            use_type_invariant(self);
        }
        let mut pairs: Vec<(String, String)> = Vec::new();
        let mut i: usize = 0;
        while i < self.pairs.len()
            invariant
                i <= self.pairs@.len(),
                pairs@ == self.pairs@.take(i as int),
            decreases self.pairs@.len() - i,
        {
            let pair = &self.pairs[i];
            pairs.push((pair.0.clone(), pair.1.clone()));
            assert(self.pairs@.take(i + 1) =~= self.pairs@.take(i as int).push(*pair));
            i += 1;
        }
        assert(self.pairs@.take(i as int) =~= self.pairs@);
        ClientMap { pairs }
    }
}

impl Clone for ClientMap<(u64, Option<String>)> {
    fn clone(&self) -> (copy: Self)
        ensures
            copy@ == self@,
    {
        proof {
            use_type_invariant(self);
        }
        let mut pairs: Vec<(String, (u64, Option<String>))> = Vec::new();
        let mut i: usize = 0;
        while i < self.pairs.len()
            invariant
                i <= self.pairs@.len(),
                pairs@ == self.pairs@.take(i as int),
            decreases self.pairs@.len() - i,
        {
            let pair = &self.pairs[i];
            pairs.push((pair.0.clone(), (pair.1.0, clone_text(&pair.1.1))));
            assert(self.pairs@.take(i + 1) =~= self.pairs@.take(i as int).push(*pair));
            i += 1;
        }
        assert(self.pairs@.take(i as int) =~= self.pairs@);
        ClientMap { pairs }
    }
}

} // verus!
