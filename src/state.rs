use vstd::prelude::*;

verus! {

/// One attribute of a token's metadata.
#[derive(Debug, Clone, PartialEq, Eq, Default)]
pub struct Trait {
    pub display_type: Option<String>,
    pub trait_type: String,
    pub value: String,
}

/// The displayable attributes of a token. `image` holds the output of the
/// token's request: absent until the request is fulfilled, then never changed.
#[derive(Debug, Clone, PartialEq, Eq, Default)]
pub struct Metadata {
    pub image: Option<String>,
    pub image_data: Option<String>,
    pub external_url: Option<String>,
    pub description: Option<String>,
    pub name: Option<String>,
    pub attributes: Option<Vec<Trait>>,
    pub background_color: Option<String>,
    pub animation_url: Option<String>,
    pub youtube_url: Option<String>,
}

impl Metadata {
    /// A request is the description: metadata handed to a mint must have one.
    pub fn lacks_description(extension: &Option<Metadata>) -> (r: bool)
        ensures
            r == (extension matches Some(m) && m.description is None),
    {
        match extension {
            Some(m) => m.description.is_none(),
            None => false,
        }
    }
}

/// What the registry holds for one token.
#[derive(Debug, Clone, PartialEq, Eq)]
pub struct TokenInfo {
    pub owner: String,
    pub token_uri: Option<String>,
    pub extension: Option<Metadata>,
}

/// The token `t` with `output` written into its metadata's `image`.
pub open spec fn with_image(t: TokenInfo, output: String) -> TokenInfo {
    TokenInfo { extension: Some(Metadata { image: Some(output), ..t.extension->0 }), ..t }
}

/// No two entries share an id.
pub open spec fn keys_distinct(entries: Seq<(String, TokenInfo)>) -> bool {
    forall|i: int, j: int|
        0 <= i < j < entries.len() ==> (#[trigger] entries[i]).0@ != (#[trigger] entries[j]).0@
}

/// Some entry has the id `id`.
pub open spec fn has_token(entries: Seq<(String, TokenInfo)>, id: Seq<char>) -> bool {
    exists|k: int| 0 <= k < entries.len() && (#[trigger] entries[k]).0@ == id
}

/// `entries` lists the tokens of `tokens`, each under its id, once.
pub open spec fn entries_match(
    entries: Seq<(String, TokenInfo)>,
    tokens: Map<Seq<char>, TokenInfo>,
) -> bool {
    &&& forall|i: int|
        0 <= i < entries.len() ==> {
            let e = #[trigger] entries[i];
            &&& tokens.contains_key(e.0@)
            &&& tokens[e.0@] == e.1
        }
    &&& forall|k: Seq<char>| #[trigger]
        tokens.contains_key(k) ==> exists|i: int| 0 <= i < entries.len() && (#[trigger] entries[i]).0@ == k
    &&& keys_distinct(entries)
}

/// The map of the entries' tokens by id.
pub open spec fn entries_to_map(entries: Seq<(String, TokenInfo)>) -> Map<Seq<char>, TokenInfo>
    decreases entries.len(),
{
    if entries.len() == 0 {
        Map::empty()
    } else {
        entries_to_map(entries.drop_last()).insert(entries.last().0@, entries.last().1)
    }
}

/// Entries with distinct ids list exactly the tokens of their map.
pub proof fn lemma_entries_to_map(entries: Seq<(String, TokenInfo)>)
    requires
        keys_distinct(entries),
    ensures
        entries_match(entries, entries_to_map(entries)),
    decreases entries.len(),
{
    if entries.len() > 0 {
        let p = entries.drop_last();
        let e = entries.last();
        let m = entries_to_map(entries);
        assert(keys_distinct(p)) by {
            assert forall|i: int, j: int| 0 <= i < j < p.len() implies (#[trigger] p[i]).0@ != (
            #[trigger] p[j]).0@ by {
                assert(p[i] == entries[i] && p[j] == entries[j]);
            }
        }
        lemma_entries_to_map(p);
        assert forall|i: int| 0 <= i < entries.len() implies {
            let x = #[trigger] entries[i];
            &&& m.contains_key(x.0@)
            &&& m[x.0@] == x.1
        } by {
            if i < p.len() {
                assert(entries[i] == p[i]);
                assert(entries[i].0@ != entries[entries.len() - 1].0@);
            }
        }
        assert forall|k: Seq<char>| #[trigger] m.contains_key(k) implies exists|i: int|
            0 <= i < entries.len() && (#[trigger] entries[i]).0@ == k by {
            if k == e.0@ {
                assert(entries[entries.len() - 1].0@ == k);
            } else {
                let i = choose|i: int| 0 <= i < p.len() && (#[trigger] p[i]).0@ == k;
                assert(entries[i] == p[i]);
            }
        }
    }
}

/// The tokens of the contract, keyed by id, and the count of tokens minted.
pub struct TokenRegistry {
    entries: Vec<(String, TokenInfo)>,
    count: u64,
    tokens: Ghost<Map<Seq<char>, TokenInfo>>,
}

impl TokenRegistry {
    /// The tokens, by id.
    pub closed spec fn tokens(&self) -> Map<Seq<char>, TokenInfo> {
        self.tokens@
    }

    /// How many tokens were minted.
    pub closed spec fn num_tokens(&self) -> u64 {
        self.count
    }

    /// The entries hold exactly the tokens of the map, each under its id once.
    pub closed spec fn wf(&self) -> bool {
        entries_match(self.entries@, self.tokens@)
    }

    pub fn new() -> (r: TokenRegistry)
        ensures
            r.wf(),
            r.tokens() == Map::<Seq<char>, TokenInfo>::empty(),
            r.num_tokens() == 0,
    {
        TokenRegistry { entries: Vec::new(), count: 0, tokens: Ghost(Map::empty()) }
    }

    pub fn token_count(&self) -> (r: u64)
        ensures
            r == self.num_tokens(),
    {
        self.count
    }

    fn find(&self, id: &String) -> (r: Option<usize>)
        requires
            self.wf(),
        ensures
            match r {
                Some(i) => i < self.entries@.len() && self.entries@[i as int].0@ == id@,
                None => !self.tokens().contains_key(id@),
            },
    {
        let mut i: usize = 0;
        while i < self.entries.len()
            invariant
                self.wf(),
                0 <= i <= self.entries@.len(),
                forall|j: int| 0 <= j < i ==> (#[trigger] self.entries@[j]).0@ != id@,
            decreases self.entries@.len() - i,
        {
            if self.entries[i].0 == *id {
                return Some(i);
            }
            i += 1;
        }
        None
    }

    pub fn contains(&self, id: &String) -> (r: bool)
        requires
            self.wf(),
        ensures
            r == self.tokens().contains_key(id@),
    {
        match self.find(id) {
            Some(i) => {
                let ghost e = self.entries@[i as int];
                true
            },
            None => false,
        }
    }

    pub fn get(&self, id: &String) -> (r: Option<&TokenInfo>)
        requires
            self.wf(),
        ensures
            match r {
                Some(t) => self.tokens().contains_key(id@) && *t == self.tokens()[id@],
                None => !self.tokens().contains_key(id@),
            },
    {
        match self.find(id) {
            Some(i) => {
                let ghost e = self.entries@[i as int];
                Some(&self.entries[i].1)
            },
            None => None,
        }
    }

    /// Adds a token under an id that no token has.
    pub fn insert_new(&mut self, id: String, token: TokenInfo)
        requires
            old(self).wf(),
            !old(self).tokens().contains_key(id@),
        ensures
            final(self).wf(),
            final(self).tokens() == old(self).tokens().insert(id@, token),
            final(self).num_tokens() == old(self).num_tokens(),
    {
        let ghost k = id@;
        let ghost old_entries = self.entries@;
        self.entries.push((id, token));
        self.tokens = Ghost(self.tokens@.insert(k, token));
        assert forall|i: int| 0 <= i < old_entries.len() implies (#[trigger] self.entries@[i]).0@
            != k by {
            assert(self.entries@[i] == old_entries[i]);
            assert(old(self).tokens().contains_key(old_entries[i].0@));
        }
        assert forall|kk: Seq<char>| #[trigger]
            self.tokens@.contains_key(kk) implies exists|i: int|
            0 <= i < self.entries@.len() && (#[trigger] self.entries@[i]).0@ == kk by {
            if kk == k {
                assert(self.entries@[old_entries.len() as int].0@ == kk);
            } else {
                let i = choose|i: int|
                    0 <= i < old_entries.len() && (#[trigger] old_entries[i]).0@ == kk;
                assert(self.entries@[i] == old_entries[i]);
            }
        }
    }

    /// Counts one more minted token.
    pub fn increment_tokens(&mut self)
        requires
            old(self).num_tokens() < u64::MAX,
        ensures
            final(self).num_tokens() == old(self).num_tokens() + 1,
            final(self).tokens() == old(self).tokens(),
            old(self).wf() ==> final(self).wf(),
    {
        self.count = self.count + 1;
        assert(self.entries@ == old(self).entries@);
        assert(self.tokens@ == old(self).tokens@);
    }

    /// Writes `output` into the metadata of a token that has metadata.
    pub fn set_image(&mut self, id: &String, output: String)
        requires
            old(self).wf(),
            old(self).tokens().contains_key(id@),
            old(self).tokens()[id@].extension is Some,
        ensures
            final(self).wf(),
            final(self).tokens() == old(self).tokens().insert(
                id@,
                with_image(old(self).tokens()[id@], output),
            ),
            final(self).num_tokens() == old(self).num_tokens(),
    {
        let i = match self.find(id) {
            Some(i) => i,
            None => { return; },
        };
        let ghost old_entries = self.entries@;
        let ghost t = with_image(self.tokens@[id@], output);
        let mut entry = self.entries.remove(i);
        assert(entry == old_entries[i as int]);
        match &mut entry.1.extension {
            Some(m) => {
                m.image = Some(output);
            },
            None => {},
        }
        assert(entry.1 == t);
        self.entries.insert(i, entry);
        assert(self.entries@ =~= old_entries.update(i as int, (entry.0, t)));
        self.tokens = Ghost(self.tokens@.insert(id@, t));
        assert forall|kk: Seq<char>| #[trigger]
            self.tokens@.contains_key(kk) implies exists|j: int|
            0 <= j < self.entries@.len() && (#[trigger] self.entries@[j]).0@ == kk by {
            let j = choose|j: int| 0 <= j < old_entries.len() && (#[trigger] old_entries[j]).0@ == kk;
            assert(self.entries@[j].0@ == kk);
        }
        assert forall|j: int| 0 <= j < self.entries@.len() implies {
            let e = #[trigger] self.entries@[j];
            &&& self.tokens@.contains_key(e.0@)
            &&& self.tokens@[e.0@] == e.1
        } by {
            if j != i {
                assert(self.entries@[j] == old_entries[j]);
                assert(old_entries[j].0@ != id@);
            }
        }
    }

    /// The entries, each token under its id, in no particular order.
    pub fn into_entries(self) -> (r: Vec<(String, TokenInfo)>)
        requires
            self.wf(),
        ensures
            entries_match(r@, self.tokens()),
    {
        self.entries
    }

    /// The registry of `entries` and a count; `None` if two entries share an id.
    pub fn from_entries(entries: Vec<(String, TokenInfo)>, count: u64) -> (r: Option<TokenRegistry>)
        ensures
            r is Some <==> keys_distinct(entries@),
            r matches Some(g) ==> g.wf() && entries_match(entries@, g.tokens()) && g.num_tokens()
                == count,
    {
        let mut j: usize = 1;
        while j < entries.len()
            invariant
                1 <= j || entries@.len() == 0,
                j <= entries@.len() || entries@.len() == 0,
                forall|a: int, b: int|
                    0 <= a < b < j && b < entries@.len() ==> (#[trigger] entries@[a]).0@ != (
                    #[trigger] entries@[b]).0@,
            decreases entries@.len() - j,
        {
            let mut i: usize = 0;
            while i < j
                invariant
                    0 <= i <= j < entries@.len(),
                    forall|a: int, b: int|
                        0 <= a < b < j ==> (#[trigger] entries@[a]).0@ != (
                        #[trigger] entries@[b]).0@,
                    forall|a: int| 0 <= a < i ==> (#[trigger] entries@[a]).0@ != entries@[j as int].0@,
                decreases j - i,
            {
                if entries[i].0 == entries[j].0 {
                    assert(!keys_distinct(entries@)) by {
                        assert(entries@[i as int].0@ == entries@[j as int].0@);
                    }
                    return None;
                }
                i += 1;
            }
            j += 1;
        }
        let ghost m = entries_to_map(entries@);
        proof {
            lemma_entries_to_map(entries@);
        }
        Some(TokenRegistry { entries, count, tokens: Ghost(m) })
    }
}

} // verus!
