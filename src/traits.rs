use vstd::prelude::*;
use crate::contract::Cw7007Contract;
use crate::error::ContractError;
use crate::msg::{MessageInfo, PromptInfoResponse, RequestIdsResponse, Response};
use crate::queue::ids_view;

verus! {

/// A contract that takes requests and their outputs, and answers queries on them.
pub trait Cw7007: Cw7007Execute + Cw7007Query {

}

/// The commands that fulfil a request.
pub trait Cw7007Execute: Sized {
    type Err;

    /// The state's invariant, kept by every command.
    spec fn well_formed(&self) -> bool;

    /// What a fulfilment by `sender` of token `id` with `output` brings about,
    /// from state `pre` to state `post` with result `r`.
    spec fn responded(
        pre: Self,
        post: Self,
        sender: Seq<char>,
        id: Seq<char>,
        output: String,
        r: Result<Response, Self::Err>,
    ) -> bool;

    /// What a fulfilment by proof brings about.
    spec fn verified(pre: Self, post: Self, r: Result<Response, Self::Err>) -> bool;

    /// Writes the output of a pending request.
    fn response(&mut self, info: &MessageInfo, token_id: String, output: String) -> (r: Result<
        Response,
        Self::Err,
    >)
        requires
            old(self).well_formed(),
        ensures
            final(self).well_formed(),
            Self::responded(*old(self), *final(self), info.sender@, token_id@, output, r),
    ;

    /// Fulfils a request by proof.
    fn verify(&mut self, info: &MessageInfo, token_id: String, proof: String) -> (r: Result<
        Response,
        Self::Err,
    >)
        requires
            old(self).well_formed(),
        ensures
            final(self).well_formed(),
            Self::verified(*old(self), *final(self), r),
    ;
}

/// The queries on the prompt and on the pending requests.
pub trait Cw7007Query {
    type Err;

    /// The prompt, if it was configured.
    spec fn prompt_view(&self) -> Option<Seq<char>>;

    /// The pending requests, if the queue was created.
    spec fn queue_view(&self) -> Option<Seq<Seq<char>>>;

    fn prompt_info(&self) -> (r: Result<PromptInfoResponse, Self::Err>)
        ensures
            match self.prompt_view() {
                Some(p) => r is Ok && r->Ok_0.prompt@ == p,
                None => r is Err,
            },
    ;

    fn request_ids(&self) -> (r: Result<RequestIdsResponse, Self::Err>)
        ensures
            match self.queue_view() {
                Some(q) => r is Ok && ids_view(r->Ok_0.ids@) == q,
                None => r is Err,
            },
    ;
}

impl Cw7007Execute for Cw7007Contract {
    type Err = ContractError;

    open spec fn well_formed(&self) -> bool {
        self.wf()
    }

    open spec fn responded(
        pre: Cw7007Contract,
        post: Cw7007Contract,
        sender: Seq<char>,
        id: Seq<char>,
        output: String,
        r: Result<Response, ContractError>,
    ) -> bool {
        pre@.response_outcome(post@, sender, id, output, r)
    }

    /// Always the "not supported" error, with the state unchanged.
    open spec fn verified(
        pre: Cw7007Contract,
        post: Cw7007Contract,
        r: Result<Response, ContractError>,
    ) -> bool {
        r == Err::<Response, ContractError>(ContractError::NotSupported) && post@ == pre@
    }

    fn response(&mut self, info: &MessageInfo, token_id: String, output: String) -> (r: Result<
        Response,
        ContractError,
    >) {
        Cw7007Contract::response(self, info, token_id, output)
    }

    fn verify(&mut self, info: &MessageInfo, token_id: String, proof: String) -> (r: Result<
        Response,
        ContractError,
    >) {
        Cw7007Contract::verify(self, info, token_id, proof)
    }
}

impl Cw7007Query for Cw7007Contract {
    type Err = ContractError;

    open spec fn prompt_view(&self) -> Option<Seq<char>> {
        self@.prompt
    }

    open spec fn queue_view(&self) -> Option<Seq<Seq<char>>> {
        self@.queue
    }

    fn prompt_info(&self) -> (r: Result<PromptInfoResponse, ContractError>) {
        Cw7007Contract::prompt_info(self)
    }

    fn request_ids(&self) -> (r: Result<RequestIdsResponse, ContractError>) {
        Cw7007Contract::request_ids(self)
    }
}

impl Cw7007 for Cw7007Contract {

}

} // verus!
