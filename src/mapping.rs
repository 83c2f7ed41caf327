//! The durable table from display tokens to relative asset paths.
use vstd::prelude::*;

verus! {

/// Keys whose views are pairwise distinct.
pub open spec fn keys_unique(keys: Seq<String>) -> bool {
    forall|i: int, j: int| 0 <= i < j < keys.len() ==> keys[i]@ != keys[j]@
}

/// The position of key `k` in `keys` (meaningful where it occurs).
pub open spec fn key_index(keys: Seq<String>, k: Seq<char>) -> int {
    choose|i: int| 0 <= i < keys.len() && keys[i]@ == k
}

/// The table that parallel key and value sequences stand for.
pub open spec fn table_view(keys: Seq<String>, vals: Seq<String>) -> Map<Seq<char>, Seq<char>> {
    Map::new(
        |k: Seq<char>| exists|i: int| 0 <= i < keys.len() && keys[i]@ == k,
        |k: Seq<char>| vals[key_index(keys, k)]@,
    )
}

/// What `serde_json::from_str` makes of a text as a string-to-string table, if
/// anything: it depends on the text alone.
pub uninterp spec fn parsed_mapping(text: Seq<char>) -> Option<Map<Seq<char>, Seq<char>>>;

/// The pretty-printed JSON object that `serde_json::to_string_pretty` writes for
/// a string-to-string table ordered by key: it depends on the table alone.
pub uninterp spec fn mapping_json(m: Map<Seq<char>, Seq<char>>) -> Seq<char>;

/// Relies on serde_json::from_str into a BTreeMap<String, String>, whose entries
/// then come out once per key.
#[verifier::external_body]
fn parse_table(text: &str) -> (r: Option<(Vec<String>, Vec<String>)>)
    ensures
        r is Some <==> parsed_mapping(text@) is Some,
        r matches Some(kv) ==> kv.0@.len() == kv.1@.len() && keys_unique(kv.0@) && table_view(
            kv.0@,
            kv.1@,
        ) == parsed_mapping(text@)->0,
{
    match serde_json::from_str::<std::collections::BTreeMap<String, String>>(text) {
        Ok(m) => Some(m.into_iter().unzip()),
        Err(_) => None,
    }
}

/// Relies on serde_json::to_string_pretty of a BTreeMap<String, String> built
/// from distinct keys, one entry per key. Its documentation names the only ways
/// it fails: a `Serialize` impl that fails, or a map with keys that are not
/// strings. Neither can happen for this map, so the result is always `Some`.
#[verifier::external_body]
fn render_table(keys: &Vec<String>, vals: &Vec<String>) -> (r: Option<String>)
    requires
        keys@.len() == vals@.len(),
        keys_unique(keys@),
    ensures
        r is Some,
        r matches Some(t) ==> t@ == mapping_json(table_view(keys@, vals@)),
{
    let m: std::collections::BTreeMap<String, String> = keys.iter().cloned().zip(
        vals.iter().cloned(),
    ).collect();
    serde_json::to_string_pretty(&m).ok()
}

/// A table from display tokens to relative paths; each token maps to one path.
pub struct MappingStore {
    keys: Vec<String>,
    vals: Vec<String>,
}

impl View for MappingStore {
    type V = Map<Seq<char>, Seq<char>>;

    closed spec fn view(&self) -> Map<Seq<char>, Seq<char>> {
        table_view(self.keys@, self.vals@)
    }
}

impl MappingStore {
    /// Keys and values pair up and no token occurs twice.
    pub closed spec fn wf(&self) -> bool {
        &&& self.keys@.len() == self.vals@.len()
        &&& keys_unique(self.keys@)
    }

    /// An empty table.
    pub fn new() -> (r: MappingStore)
        ensures
            r.wf(),
            r@ == Map::<Seq<char>, Seq<char>>::empty(),
    {
        let r = MappingStore { keys: Vec::new(), vals: Vec::new() };
        assert(r@ =~= Map::<Seq<char>, Seq<char>>::empty());
        r
    }

    /// Loads a table from the text of a mapping file. Text that does not parse
    /// gives an empty table and `true`, the warning that it was discarded.
    pub fn from_json(text: &str) -> (r: (MappingStore, bool))
        ensures
            r.0.wf(),
            r.1 <==> parsed_mapping(text@) is None,
            parsed_mapping(text@) matches Some(m) ==> r.0@ == m,
            parsed_mapping(text@) is None ==> r.0@ == Map::<Seq<char>, Seq<char>>::empty(),
    {
        match parse_table(text) {
            Some(kv) => {
                let (keys, vals) = kv;
                (MappingStore { keys, vals }, false)
            },
            None => (MappingStore::new(), true),
        }
    }

    /// The table as pretty-printed JSON.
    pub fn to_json(&self) -> (r: String)
        requires
            self.wf(),
        ensures
            r@ == mapping_json(self@),
    {
        render_table(&self.keys, &self.vals).unwrap()
    }

    fn find(&self, token: &String) -> (r: Option<usize>)
        requires
            self.wf(),
        ensures
            r matches Some(i) ==> i < self.keys@.len() && self.keys@[i as int]@ == token@,
            r is None ==> forall|i: int| 0 <= i < self.keys@.len() ==> self.keys@[i]@ != token@,
    {
        let mut i: usize = 0;
        while i < self.keys.len()
            invariant
                i <= self.keys@.len(),
                forall|j: int| 0 <= j < i ==> self.keys@[j]@ != token@,
            decreases self.keys.len() - i,
        {
            if self.keys[i] == *token {
                return Some(i);
            }
            i = i + 1;
        }
        None
    }

    proof fn lemma_index(&self, i: int)
        requires
            self.wf(),
            0 <= i < self.keys@.len(),
        ensures
            self@.contains_key(self.keys@[i]@),
            self@[self.keys@[i]@] == self.vals@[i]@,
    {
        let k = self.keys@[i]@;
        assert(self@.dom().contains(k));
        let j = key_index(self.keys@, k);
        assert(j == i);
    }

    /// Whether `token` is mapped.
    pub fn contains(&self, token: &String) -> (r: bool)
        requires
            self.wf(),
        ensures
            r == self@.contains_key(token@),
    {
        match self.find(token) {
            Some(i) => {
                proof {
                    self.lemma_index(i as int);
                }
                true
            },
            None => false,
        }
    }

    /// The path mapped to `token`, if any.
    pub fn get(&self, token: &String) -> (r: Option<String>)
        requires
            self.wf(),
        ensures
            r is Some == self@.contains_key(token@),
            r matches Some(p) ==> p@ == self@[token@],
    {
        match self.find(token) {
            Some(i) => {
                proof {
                    self.lemma_index(i as int);
                }
                Some(self.vals[i].clone())
            },
            None => None,
        }
    }

    /// Maps `token` to `path`, replacing what it mapped to before.
    pub fn insert(&mut self, token: String, path: String)
        requires
            old(self).wf(),
        ensures
            final(self).wf(),
            final(self)@ == old(self)@.insert(token@, path@),
    {
        let ghost k = token@;
        let ghost v = path@;
        let ghost before = *self;
        match self.find(&token) {
            Some(i) => {
                self.vals.set(i, path);
                proof {
                    assert forall|q: Seq<char>| #[trigger] self@.contains_key(q) <==> before@.insert(
                        k,
                        v,
                    ).contains_key(q) by {}
                    assert forall|q: Seq<char>| #[trigger] self@.contains_key(q) implies self@[q]
                        == before@.insert(k, v)[q] by {
                        let j = key_index(self.keys@, q);
                        if q == k {
                            assert(j == i);
                        } else {
                            assert(j != i);
                        }
                    }
                    assert(self@ =~= before@.insert(k, v));
                }
            },
            None => {
                self.keys.push(token);
                self.vals.push(path);
                proof {
                    let n = before.keys@.len() as int;
                    assert(self.keys@[n]@ == k);
                    assert forall|q: Seq<char>| #[trigger] self@.contains_key(q) <==> before@.insert(
                        k,
                        v,
                    ).contains_key(q) by {
                        if q == k {
                            assert(self.keys@[n]@ == q);
                        } else if self@.contains_key(q) {
                            let j = key_index(self.keys@, q);
                            assert(self.keys@[j]@ == q);
                            assert(j < n);
                            assert(before.keys@[j]@ == q);
                        } else if before@.contains_key(q) {
                            let j0 = key_index(before.keys@, q);
                            assert(before.keys@[j0]@ == q);
                            assert(self.keys@[j0]@ == q);
                        }
                    }
                    assert forall|q: Seq<char>| #[trigger] self@.contains_key(q) implies self@[q]
                        == before@.insert(k, v)[q] by {
                        let j = key_index(self.keys@, q);
                        if q == k {
                            assert(j == n);
                        } else {
                            let j0 = key_index(before.keys@, q);
                            assert(before.keys@[j0]@ == q);
                            assert(self.keys@[j0]@ == q);
                            assert(j == j0);
                        }
                    }
                    assert(self@ =~= before@.insert(k, v));
                }
            },
        }
    }
}

} // verus!
