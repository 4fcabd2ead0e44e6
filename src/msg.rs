use vstd::prelude::*;
use crate::state::{Metadata, TokenInfo};

verus! {

/// Who sent the message being handled.
#[derive(Debug, Clone, PartialEq, Eq)]
pub struct MessageInfo {
    pub sender: String,
}

/// What the contract is created with.
#[derive(Debug, Clone, PartialEq, Eq)]
pub struct InstantiateMsg {
    pub name: String,
    pub symbol: String,
    /// The administrator: the one principal that may fulfil requests.
    pub minter: String,
    pub prompt: String,
}

/// The commands of the contract.
#[derive(Debug, Clone, PartialEq, Eq)]
pub enum ExecuteMsg {
    /// Mints a token with a request; `token_id` is ignored, ids are assigned.
    Mint { token_id: String, owner: String, token_uri: Option<String>, extension: Option<Metadata> },
    /// Writes the output of a pending request.
    Response { token_id: String, output: String },
    /// Fulfils a request by proof; not supported yet.
    Verify { token_id: String, proof: String },
}

/// The read-only queries of the contract.
#[derive(Debug, Clone, PartialEq, Eq)]
pub enum QueryMsg {
    Prompt,
    RequestIds,
    NumTokens,
    ContractInfo,
    /// The administrator, who also mints in the collection's records.
    Minter,
    /// The token stored under `token_id`.
    NftInfo { token_id: String },
}

/// The prompt shown to fulfillers.
#[derive(Debug, Clone, PartialEq, Eq)]
pub struct PromptInfoResponse {
    pub prompt: String,
}

/// The ids of the pending requests, oldest first.
#[derive(Debug, Clone, PartialEq, Eq)]
pub struct RequestIdsResponse {
    pub ids: Vec<String>,
}

/// The name and symbol of the collection.
#[derive(Debug, Clone, PartialEq, Eq)]
pub struct ContractInfoResponse {
    pub name: String,
    pub symbol: String,
}

/// The answer to a query; a token is lent from the contract.
#[derive(Debug, Clone, PartialEq, Eq)]
pub enum QueryAnswer<'a> {
    Prompt(PromptInfoResponse),
    RequestIds(RequestIdsResponse),
    NumTokens(u64),
    ContractInfo(ContractInfoResponse),
    Minter(Option<String>),
    NftInfo(&'a TokenInfo),
}

/// A key and value of an event.
#[derive(Debug, Clone, PartialEq, Eq)]
pub struct Attribute {
    pub key: String,
    pub value: String,
}

/// What an operation reports: its event's attributes, in order.
#[derive(Debug, Clone, PartialEq, Eq)]
pub struct Response {
    pub attributes: Vec<Attribute>,
}

impl View for Response {
    type V = Seq<(Seq<char>, Seq<char>)>;

    open spec fn view(&self) -> Seq<(Seq<char>, Seq<char>)> {
        self.attributes@.map_values(|a: Attribute| (a.key@, a.value@))
    }
}

impl Response {
    pub fn new() -> (r: Response)
        ensures
            r@ == Seq::<(Seq<char>, Seq<char>)>::empty(),
    {
        Response { attributes: Vec::new() }
    }

    /// Appends one attribute.
    pub fn add_attribute(self, key: &str, value: String) -> (r: Response)
        ensures
            r@ == self@.push((key@, value@)),
    {
        let mut attributes = self.attributes;
        attributes.push(Attribute { key: String::from_str(key), value });
        let r = Response { attributes };
        assert(r@ =~= self@.push((key@, value@)));
        r
    }
}

} // verus!
