//! A token registry in which every minted token carries a request (its
//! description) and waits in a queue of pending requests until the
//! administrator writes its single, immutable output.

pub mod decimal;
pub mod error;
pub mod laws;
pub mod msg;
pub mod queue;
pub mod contract;
pub mod state;
pub mod traits;

pub use error::{ContractError, Precondition};
pub use state::{Metadata, TokenInfo, Trait};
pub use contract::{ContractParts, Cw7007Contract};
pub use msg::{
    Attribute, ContractInfoResponse, ExecuteMsg, InstantiateMsg, MessageInfo, PromptInfoResponse,
    QueryAnswer, QueryMsg, RequestIdsResponse, Response,
};
pub use traits::{Cw7007, Cw7007Execute, Cw7007Query};
