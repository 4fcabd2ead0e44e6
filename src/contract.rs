use vstd::prelude::*;
use crate::decimal::{decimal, decimal_string};
use crate::error::{ContractError, Precondition};
use crate::msg::{
    ContractInfoResponse, ExecuteMsg, InstantiateMsg, MessageInfo, PromptInfoResponse,
    QueryAnswer, QueryMsg, RequestIdsResponse, Response,
};
use crate::queue::{ids_view, lemma_without_sub, remove_id, without};
use crate::state::{
    entries_match, has_token, keys_distinct, with_image, Metadata, TokenInfo, TokenRegistry,
};

verus! {

/// The contract's state as values: the administrator, the collection's name
/// and symbol, the prompt, the queue of pending requests, the tokens by id,
/// and how many tokens were minted. A record that was never written is `None`.
pub struct ContractView {
    pub owner: Option<Seq<char>>,
    pub info: Option<(Seq<char>, Seq<char>)>,
    pub prompt: Option<Seq<char>>,
    pub queue: Option<Seq<Seq<char>>>,
    pub tokens: Map<Seq<char>, TokenInfo>,
    pub count: u64,
}

impl ContractView {
    /// Each queued id is the id of a token, and no id is queued twice.
    pub open spec fn wf(self) -> bool {
        self.queue matches Some(q) ==> {
            &&& q.no_duplicates()
            &&& forall|x: Seq<char>| #[trigger] q.contains(x) ==> self.tokens.contains_key(x)
        }
    }

    /// Some record of the configuration or of the queue was written.
    pub open spec fn instantiated(self) -> bool {
        self.owner is Some || self.info is Some || self.prompt is Some || self.queue is Some
    }

    /// The id that the next mint assigns: the count of tokens, in decimal.
    pub open spec fn next_id(self) -> Seq<char> {
        decimal(self.count as nat)
    }

    /// The error of a mint, if any, in the order the checks are made.
    pub open spec fn mint_error(self, owner_valid: bool) -> Option<ContractError> {
        if !owner_valid {
            Some(ContractError::InvalidAddress)
        } else if self.tokens.contains_key(self.next_id()) {
            Some(ContractError::Claimed)
        } else if self.count == u64::MAX {
            Some(ContractError::TokenCountOverflow)
        } else if self.queue is None {
            Some(ContractError::NotFound)
        } else {
            None
        }
    }

    /// The state after a successful mint of `token`.
    pub open spec fn minted(self, token: TokenInfo) -> ContractView {
        ContractView {
            tokens: self.tokens.insert(self.next_id(), token),
            count: (self.count + 1) as u64,
            queue: Some(self.queue->0.push(self.next_id())),
            ..self
        }
    }

    /// The error of a fulfilment by `sender` of token `id`, if any, in the
    /// order the checks are made.
    pub open spec fn response_error(self, sender: Seq<char>, id: Seq<char>) -> Option<
        ContractError,
    > {
        if self.owner != Some(sender) {
            Some(ContractError::Unauthorized)
        } else if !self.tokens.contains_key(id) {
            Some(ContractError::NotFound)
        } else if self.tokens[id].extension is None {
            Some(ContractError::PreconditionFailed(Precondition::MissingMetadata))
        } else if self.tokens[id].extension->0.image is Some {
            Some(ContractError::PreconditionFailed(Precondition::OutputAlreadySet))
        } else {
            None
        }
    }

    /// The state after `output` was written for token `id`: the token holds
    /// it, and the id has left the queue (a missing queue counts as empty).
    pub open spec fn fulfilled(self, id: Seq<char>, output: String) -> ContractView {
        ContractView {
            tokens: self.tokens.insert(id, with_image(self.tokens[id], output)),
            queue: Some(
                without(
                    match self.queue {
                        Some(q) => q,
                        None => Seq::empty(),
                    },
                    id,
                ),
            ),
            ..self
        }
    }

    /// What a mint by `sender` for `owner` brings about: its error with the
    /// state unchanged, or the new token, its id queued, and the event.
    pub open spec fn mint_outcome(
        self,
        post: ContractView,
        sender: Seq<char>,
        owner_valid: bool,
        token: TokenInfo,
        r: Result<Response, ContractError>,
    ) -> bool {
        match self.mint_error(owner_valid) {
            Some(e) => r == Err::<Response, ContractError>(e) && post == self,
            None => {
                &&& r is Ok
                &&& post == self.minted(token)
                &&& r->Ok_0@ == seq![
                    ("action"@, "mint"@),
                    ("minter"@, sender),
                    ("owner"@, token.owner@),
                    ("token_id"@, self.next_id()),
                ]
            },
        }
    }

    /// What a fulfilment brings about: its error with the state unchanged, or
    /// the output written, the queue updated, and the event.
    pub open spec fn response_outcome(
        self,
        post: ContractView,
        sender: Seq<char>,
        id: Seq<char>,
        output: String,
        r: Result<Response, ContractError>,
    ) -> bool {
        match self.response_error(sender, id) {
            Some(e) => r == Err::<Response, ContractError>(e) && post == self,
            None => {
                &&& r is Ok
                &&& post == self.fulfilled(id, output)
                &&& r->Ok_0@ == seq![
                    ("action"@, "response"@),
                    ("sender"@, sender),
                    ("token_id"@, id),
                    ("output"@, output@),
                ]
            },
        }
    }
}

/// The contract's records as plain values, for a host that stores them.
pub struct ContractParts {
    pub owner: Option<String>,
    pub contract_info: Option<ContractInfoResponse>,
    pub prompt_info: Option<PromptInfoResponse>,
    pub request_ids: Option<RequestIdsResponse>,
    pub tokens: Vec<(String, TokenInfo)>,
    pub token_count: u64,
}

impl ContractParts {
    /// The records hold the state `v`.
    pub open spec fn holds(&self, v: ContractView) -> bool {
        &&& v.owner == match self.owner {
            Some(o) => Some(o@),
            None => None::<Seq<char>>,
        }
        &&& v.info == match self.contract_info {
            Some(i) => Some((i.name@, i.symbol@)),
            None => None::<(Seq<char>, Seq<char>)>,
        }
        &&& v.prompt == match self.prompt_info {
            Some(p) => Some(p.prompt@),
            None => None::<Seq<char>>,
        }
        &&& v.queue == match self.request_ids {
            Some(q) => Some(ids_view(q.ids@)),
            None => None::<Seq<Seq<char>>>,
        }
        &&& entries_match(self.tokens@, v.tokens)
        &&& v.count == self.token_count
    }

    /// No two tokens share an id, and the queue names tokens, each once.
    pub open spec fn consistent(&self) -> bool {
        &&& keys_distinct(self.tokens@)
        &&& self.request_ids matches Some(q) ==> {
            &&& ids_view(q.ids@).no_duplicates()
            &&& forall|x: Seq<char>| #[trigger]
                ids_view(q.ids@).contains(x) ==> has_token(self.tokens@, x)
        }
    }
}

/// The contract: its configuration, the pending-request queue and the tokens.
pub struct Cw7007Contract {
    owner: Option<String>,
    contract_info: Option<ContractInfoResponse>,
    prompt_info: Option<PromptInfoResponse>,
    request_ids: Option<RequestIdsResponse>,
    tokens: TokenRegistry,
}

impl View for Cw7007Contract {
    type V = ContractView;

    closed spec fn view(&self) -> ContractView {
        ContractView {
            owner: match self.owner {
                Some(o) => Some(o@),
                None => None,
            },
            info: match self.contract_info {
                Some(i) => Some((i.name@, i.symbol@)),
                None => None,
            },
            prompt: match self.prompt_info {
                Some(p) => Some(p.prompt@),
                None => None,
            },
            queue: match self.request_ids {
                Some(q) => Some(ids_view(q.ids@)),
                None => None,
            },
            tokens: self.tokens.tokens(),
            count: self.tokens.num_tokens(),
        }
    }
}

impl Default for Cw7007Contract {
    fn default() -> (r: Cw7007Contract)
        ensures
            r.wf(),
            r@ == Cw7007Contract::empty_view(),
    {
        Cw7007Contract::new()
    }
}

impl Cw7007Contract {
    /// The registry's invariant, and the model's.
    pub closed spec fn wf(&self) -> bool {
        self.tokens.wf() && self@.wf()
    }

    /// The state of a contract that was never instantiated.
    pub open spec fn empty_view() -> ContractView {
        ContractView {
            owner: None,
            info: None,
            prompt: None,
            queue: None,
            tokens: Map::empty(),
            count: 0,
        }
    }

    /// A contract with no records at all.
    pub fn new() -> (r: Cw7007Contract)
        ensures
            r.wf(),
            r@ == Cw7007Contract::empty_view(),
    {
        Cw7007Contract {
            owner: None,
            contract_info: None,
            prompt_info: None,
            request_ids: None,
            tokens: TokenRegistry::new(),
        }
    }

    /// Records the administrator (the minter), the collection's name and
    /// symbol and the prompt, and starts an empty queue; the tokens stay.
    /// This is done once: a contract that was instantiated refuses.
    /// `minter_valid` is the host's verdict on the minter's address.
    pub fn instantiate(&mut self, msg: InstantiateMsg, minter_valid: bool) -> (r: Result<
        Response,
        ContractError,
    >)
        requires
            old(self).wf(),
        ensures
            final(self).wf(),
            old(self)@.instantiated() ==> r == Err::<Response, ContractError>(
                ContractError::AlreadyInstantiated,
            ) && final(self)@ == old(self)@,
            !old(self)@.instantiated() && !minter_valid ==> r == Err::<Response, ContractError>(
                ContractError::InvalidAddress,
            ) && final(self)@ == old(self)@,
            !old(self)@.instantiated() && minter_valid ==> r is Ok && r->Ok_0@ == Seq::<(Seq<char>, Seq<char>)>::empty()
                && final(self)@ == (ContractView {
                owner: Some(msg.minter@),
                info: Some((msg.name@, msg.symbol@)),
                prompt: Some(msg.prompt@),
                queue: Some(Seq::empty()),
                ..old(self)@
            }),
    {
        if self.owner.is_some() || self.contract_info.is_some() || self.prompt_info.is_some()
            || self.request_ids.is_some() {
            return Err(ContractError::AlreadyInstantiated);
        }
        if !minter_valid {
            return Err(ContractError::InvalidAddress);
        }
        self.owner = Some(msg.minter);
        self.contract_info = Some(ContractInfoResponse { name: msg.name, symbol: msg.symbol });
        self.prompt_info = Some(PromptInfoResponse { prompt: msg.prompt });
        self.request_ids = Some(RequestIdsResponse { ids: Vec::new() });
        assert(self@.queue->0 =~= Seq::empty());
        Ok(Response::new())
    }

    /// Mints a token for `owner` under the next id of the sequence "0", "1",
    /// ... and queues its request. Open to any caller. `owner_valid` is the
    /// host's verdict on the owner's address.
    pub fn mint_anyone(
        &mut self,
        info: &MessageInfo,
        owner: String,
        owner_valid: bool,
        token_uri: Option<String>,
        extension: Option<Metadata>,
    ) -> (r: Result<Response, ContractError>)
        requires
            old(self).wf(),
        ensures
            final(self).wf(),
            old(self)@.mint_outcome(
                final(self)@,
                info.sender@,
                owner_valid,
                (TokenInfo { owner, token_uri, extension }),
                r,
            ),
    {
        if !owner_valid {
            return Err(ContractError::InvalidAddress);
        }
        let token_id = decimal_string(self.tokens.token_count());
        if self.tokens.contains(&token_id) {
            return Err(ContractError::Claimed);
        }
        if self.tokens.token_count() == u64::MAX {
            return Err(ContractError::TokenCountOverflow);
        }
        if self.request_ids.is_none() {
            return Err(ContractError::NotFound);
        }
        let ghost pre = self@;
        let resp = Response::new().add_attribute("action", String::from_str("mint")).add_attribute(
            "minter",
            info.sender.clone(),
        ).add_attribute("owner", owner.clone()).add_attribute("token_id", token_id.clone());
        let token = TokenInfo { owner, token_uri, extension };
        self.tokens.insert_new(token_id.clone(), token);
        self.tokens.increment_tokens();
        match &mut self.request_ids {
            Some(q) => {
                q.ids.push(token_id);
            },
            None => {},
        }
        proof {
            let q = pre.queue->0;
            assert(self@.queue->0 =~= q.push(token_id@));
            assert(self@ =~= pre.minted(token));
            assert(!q.contains(token_id@));
            let q2 = q.push(token_id@);
            assert forall|x: Seq<char>| #[trigger] q2.contains(x) implies self@.tokens.contains_key(
                x,
            ) by {
                if x != token_id@ {
                    let k = choose|k: int| 0 <= k < q2.len() && q2[k] == x;
                    assert(q.contains(x) && q[k] == x);
                }
            }
            assert forall|i: int, j: int| 0 <= i < q2.len() && 0 <= j < q2.len() && i != j implies q2[i]
                != q2[j] by {
                if i == q.len() as int {
                    assert(q.contains(q[j]));
                } else if j == q.len() as int {
                    assert(q.contains(q[i]));
                }
            }
        }
        assert(resp@ =~= seq![
            ("action"@, "mint"@),
            ("minter"@, info.sender@),
            ("owner"@, token.owner@),
            ("token_id"@, pre.next_id()),
        ]);
        Ok(resp)
    }

    /// Writes `output` as the image of token `token_id`, once, and takes the
    /// id out of the queue. Only the administrator may call it.
    pub fn response(&mut self, info: &MessageInfo, token_id: String, output: String) -> (r: Result<
        Response,
        ContractError,
    >)
        requires
            old(self).wf(),
        ensures
            final(self).wf(),
            old(self)@.response_outcome(final(self)@, info.sender@, token_id@, output, r),
    {
        match &self.owner {
            Some(o) => {
                if *o != info.sender {
                    return Err(ContractError::Unauthorized);
                }
            },
            None => {
                return Err(ContractError::Unauthorized);
            },
        }
        match self.tokens.get(&token_id) {
            None => {
                return Err(ContractError::NotFound);
            },
            Some(t) => match &t.extension {
                None => {
                    return Err(ContractError::PreconditionFailed(Precondition::MissingMetadata));
                },
                Some(m) => {
                    if m.image.is_some() {
                        return Err(
                            ContractError::PreconditionFailed(Precondition::OutputAlreadySet),
                        );
                    }
                },
            },
        }
        let ghost pre = self@;
        self.tokens.set_image(&token_id, output.clone());
        let ids = match &self.request_ids {
            Some(q) => remove_id(&q.ids, &token_id),
            None => Vec::new(),
        };
        proof {
            let q = match pre.queue {
                Some(q) => q,
                None => Seq::empty(),
            };
            if pre.queue is None {
                assert(ids_view(ids@) =~= Seq::empty());
                assert(without(q, token_id@) =~= Seq::empty()) by {
                    reveal(Seq::filter);
                }
            }
            lemma_without_sub(q, token_id@);
        }
        self.request_ids = Some(RequestIdsResponse { ids });
        let resp = Response::new().add_attribute("action", String::from_str("response")).add_attribute(
            "sender",
            info.sender.clone(),
        ).add_attribute("token_id", token_id).add_attribute("output", output);
        assert(self@ =~= pre.fulfilled(token_id@, output));
        assert(resp@ =~= seq![
            ("action"@, "response"@),
            ("sender"@, info.sender@),
            ("token_id"@, token_id@),
            ("output"@, output@),
        ]);
        Ok(resp)
    }

    /// Fulfilment by proof has no implementation yet: it always fails with
    /// `NotSupported` and changes nothing.
    pub fn verify(&self, _info: &MessageInfo, _token_id: String, _proof: String) -> (r: Result<
        Response,
        ContractError,
    >)
        ensures
            r == Err::<Response, ContractError>(ContractError::NotSupported),
    {
        Err(ContractError::NotSupported)
    }

    /// Runs one command: mint, fulfilment, or fulfilment by proof.
    /// `owner_valid` is the host's verdict on a mint's owner address.
    pub fn execute(&mut self, info: &MessageInfo, msg: ExecuteMsg, owner_valid: bool) -> (r: Result<
        Response,
        ContractError,
    >)
        requires
            old(self).wf(),
        ensures
            final(self).wf(),
            match msg {
                ExecuteMsg::Mint { token_id, owner, token_uri, extension } => old(
                    self,
                )@.mint_outcome(
                    final(self)@,
                    info.sender@,
                    owner_valid,
                    (TokenInfo { owner, token_uri, extension }),
                    r,
                ),
                ExecuteMsg::Response { token_id, output } => old(self)@.response_outcome(
                    final(self)@,
                    info.sender@,
                    token_id@,
                    output,
                    r,
                ),
                ExecuteMsg::Verify { token_id, proof } => r == Err::<Response, ContractError>(
                    ContractError::NotSupported,
                ) && final(self)@ == old(self)@,
            },
    {
        match msg {
            ExecuteMsg::Mint { token_id, owner, token_uri, extension } => self.mint_anyone(
                info,
                owner,
                owner_valid,
                token_uri,
                extension,
            ),
            ExecuteMsg::Response { token_id, output } => self.response(info, token_id, output),
            ExecuteMsg::Verify { token_id, proof } => self.verify(info, token_id, proof),
        }
    }

    /// The prompt; `NotFound` before instantiation.
    pub fn prompt_info(&self) -> (r: Result<PromptInfoResponse, ContractError>)
        ensures
            match self@.prompt {
                Some(p) => r is Ok && r->Ok_0.prompt@ == p,
                None => r == Err::<PromptInfoResponse, ContractError>(ContractError::NotFound),
            },
    {
        match &self.prompt_info {
            Some(p) => Ok(PromptInfoResponse { prompt: p.prompt.clone() }),
            None => Err(ContractError::NotFound),
        }
    }

    /// The pending requests, oldest first; `NotFound` before instantiation.
    pub fn request_ids(&self) -> (r: Result<RequestIdsResponse, ContractError>)
        ensures
            match self@.queue {
                Some(q) => r is Ok && ids_view(r->Ok_0.ids@) == q,
                None => r == Err::<RequestIdsResponse, ContractError>(ContractError::NotFound),
            },
    {
        match &self.request_ids {
            Some(q) => {
                let ids = q.ids.clone();
                assert(ids_view(ids@) =~= ids_view(q.ids@));
                Ok(RequestIdsResponse { ids })
            },
            None => Err(ContractError::NotFound),
        }
    }

    /// The name and symbol; `NotFound` before instantiation.
    pub fn contract_info(&self) -> (r: Result<ContractInfoResponse, ContractError>)
        ensures
            match self@.info {
                Some(i) => r is Ok && (r->Ok_0.name@, r->Ok_0.symbol@) == i,
                None => r == Err::<ContractInfoResponse, ContractError>(ContractError::NotFound),
            },
    {
        match &self.contract_info {
            Some(i) => Ok(ContractInfoResponse { name: i.name.clone(), symbol: i.symbol.clone() }),
            None => Err(ContractError::NotFound),
        }
    }

    /// How many tokens were minted.
    pub fn num_tokens(&self) -> (r: u64)
        ensures
            r == self@.count,
    {
        self.tokens.token_count()
    }

    /// The administrator, if one was set.
    pub fn minter(&self) -> (r: Option<String>)
        ensures
            match self@.owner {
                Some(o) => r is Some && r->0@ == o,
                None => r is None,
            },
    {
        match &self.owner {
            Some(o) => Some(o.clone()),
            None => None,
        }
    }

    /// The token under `token_id`; `NotFound` if there is none.
    pub fn nft_info(&self, token_id: &String) -> (r: Result<&TokenInfo, ContractError>)
        requires
            self.wf(),
        ensures
            match r {
                Ok(t) => self@.tokens.contains_key(token_id@) && *t == self@.tokens[token_id@],
                Err(e) => !self@.tokens.contains_key(token_id@) && e == ContractError::NotFound,
            },
    {
        match self.tokens.get(token_id) {
            Some(t) => Ok(t),
            None => Err(ContractError::NotFound),
        }
    }

    /// Answers one of the contract's queries.
    pub fn query<'a>(&'a self, msg: QueryMsg) -> (r: Result<QueryAnswer<'a>, ContractError>)
        requires
            self.wf(),
        ensures
            match msg {
                QueryMsg::Prompt => match self@.prompt {
                    Some(p) => r matches Ok(QueryAnswer::Prompt(a)) && a.prompt@ == p,
                    None => r == Err::<QueryAnswer, ContractError>(ContractError::NotFound),
                },
                QueryMsg::RequestIds => match self@.queue {
                    Some(q) => r matches Ok(QueryAnswer::RequestIds(a)) && ids_view(a.ids@) == q,
                    None => r == Err::<QueryAnswer, ContractError>(ContractError::NotFound),
                },
                QueryMsg::NumTokens => r == Ok::<QueryAnswer, ContractError>(
                    QueryAnswer::NumTokens(self@.count),
                ),
                QueryMsg::ContractInfo => match self@.info {
                    Some(i) => r matches Ok(QueryAnswer::ContractInfo(a)) && (a.name@, a.symbol@)
                        == i,
                    None => r == Err::<QueryAnswer, ContractError>(ContractError::NotFound),
                },
                QueryMsg::Minter => r matches Ok(QueryAnswer::Minter(m)) && match self@.owner {
                    Some(o) => m is Some && m->0@ == o,
                    None => m is None,
                },
                QueryMsg::NftInfo { token_id } => if self@.tokens.contains_key(token_id@) {
                    r matches Ok(QueryAnswer::NftInfo(t)) && *t == self@.tokens[token_id@]
                } else {
                    r == Err::<QueryAnswer, ContractError>(ContractError::NotFound)
                },
            },
    {
        match msg {
            QueryMsg::Prompt => match self.prompt_info() {
                Ok(a) => Ok(QueryAnswer::Prompt(a)),
                Err(e) => Err(e),
            },
            QueryMsg::RequestIds => match self.request_ids() {
                Ok(a) => Ok(QueryAnswer::RequestIds(a)),
                Err(e) => Err(e),
            },
            QueryMsg::NumTokens => Ok(QueryAnswer::NumTokens(self.num_tokens())),
            QueryMsg::ContractInfo => match self.contract_info() {
                Ok(a) => Ok(QueryAnswer::ContractInfo(a)),
                Err(e) => Err(e),
            },
            QueryMsg::Minter => Ok(QueryAnswer::Minter(self.minter())),
            QueryMsg::NftInfo { token_id } => match self.nft_info(&token_id) {
                Ok(t) => Ok(QueryAnswer::NftInfo(t)),
                Err(e) => Err(e),
            },
        }
    }

    /// The contract's records, to be stored.
    pub fn into_parts(self) -> (r: ContractParts)
        requires
            self.wf(),
        ensures
            r.consistent(),
            r.holds(self@),
    {
        let ghost v = self@;
        let token_count = self.tokens.token_count();
        let tokens = self.tokens.into_entries();
        let r = ContractParts {
            owner: self.owner,
            contract_info: self.contract_info,
            prompt_info: self.prompt_info,
            request_ids: self.request_ids,
            tokens,
            token_count,
        };
        proof {
            if let Some(q) = &r.request_ids {
                assert(ids_view(q.ids@) == v.queue->0);
                assert forall|x: Seq<char>| #[trigger] ids_view(q.ids@).contains(x) implies has_token(
                    r.tokens@,
                    x,
                ) by {
                    assert(v.tokens.contains_key(x));
                }
            }
        }
        r
    }

    /// The contract of stored records; `None` if they are not consistent.
    pub fn from_parts(parts: ContractParts) -> (r: Option<Cw7007Contract>)
        ensures
            r is Some <==> parts.consistent(),
            r matches Some(c) ==> c.wf() && parts.holds(c@),
    {
        let ghost p = parts;
        let tokens = match TokenRegistry::from_entries(parts.tokens, parts.token_count) {
            Some(t) => t,
            None => {
                return None;
            },
        };
        if let Some(q) = &parts.request_ids {
            let mut j: usize = 0;
            while j < q.ids.len()
                invariant
                    0 <= j <= q.ids@.len(),
                    p.request_ids == Some(*q),
                    p == parts,
                    tokens.wf(),
                    entries_match(p.tokens@, tokens.tokens()),
                    forall|a: int, b: int|
                        0 <= a < b < j ==> (#[trigger] q.ids@[a])@ != (#[trigger] q.ids@[b])@,
                    forall|a: int| 0 <= a < j ==> tokens.tokens().contains_key(#[trigger] q.ids@[a]@),
                decreases q.ids@.len() - j,
            {
                if !tokens.contains(&q.ids[j]) {
                    proof {
                        let x = q.ids@[j as int]@;
                        assert(ids_view(q.ids@)[j as int] == x);
                        assert(ids_view(q.ids@).contains(x));
                        assert(!has_token(p.tokens@, x)) by {
                            if has_token(p.tokens@, x) {
                                let k = choose|k: int|
                                    0 <= k < p.tokens@.len() && (#[trigger] p.tokens@[k]).0@ == x;
                                assert(tokens.tokens().contains_key(p.tokens@[k].0@));
                            }
                        }
                        assert(!p.consistent());
                    }
                    return None;
                }
                let mut i: usize = 0;
                while i < j
                    invariant
                        0 <= i <= j < q.ids@.len(),
                        p.request_ids == Some(*q),
                        p == parts,
                        forall|a: int| 0 <= a < i ==> (#[trigger] q.ids@[a])@ != q.ids@[j as int]@,
                    decreases j - i,
                {
                    if q.ids[i] == q.ids[j] {
                        proof {
                            let s = ids_view(q.ids@);
                            assert(s[i as int] == s[j as int]);
                            assert(!s.no_duplicates());
                            assert(!p.consistent());
                        }
                        return None;
                    }
                    i += 1;
                }
                j += 1;
            }
            proof {
                let s = ids_view(q.ids@);
                assert forall|a: int, b: int| 0 <= a < s.len() && 0 <= b < s.len() && a != b implies s[a] != s[b] by {
                    if a < b {
                        assert(q.ids@[a]@ != q.ids@[b]@);
                    } else {
                        assert(q.ids@[b]@ != q.ids@[a]@);
                    }
                }
                assert forall|x: Seq<char>| #[trigger] s.contains(x) implies has_token(p.tokens@, x) by {
                    let i = choose|i: int| 0 <= i < s.len() && s[i] == x;
                    assert(tokens.tokens().contains_key(q.ids@[i]@));
                }
            }
        }
        let c = Cw7007Contract {
            owner: parts.owner,
            contract_info: parts.contract_info,
            prompt_info: parts.prompt_info,
            request_ids: parts.request_ids,
            tokens,
        };
        proof {
            if let Some(q) = c@.queue {
                assert forall|x: Seq<char>| #[trigger] q.contains(x) implies c@.tokens.contains_key(x) by {
                    let i = choose|i: int| 0 <= i < q.len() && q[i] == x;
                    assert(q[i] == p.request_ids->0.ids@[i]@);
                }
            }
        }
        Some(c)
    }
}

} // verus!
