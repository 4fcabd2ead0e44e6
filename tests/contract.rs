use cw7007::decimal::decimal_string;
use cw7007::{
    ContractError, Cw7007Contract, Cw7007Execute, Cw7007Query, ExecuteMsg, InstantiateMsg,
    MessageInfo, Metadata, Precondition, QueryAnswer, QueryMsg, Response,
};

const CREATOR: &str = "creator";

fn info(sender: &str) -> MessageInfo {
    MessageInfo { sender: sender.to_string() }
}

fn init(prompt: &str) -> Cw7007Contract {
    let mut contract = Cw7007Contract::default();
    contract
        .instantiate(
            InstantiateMsg {
                name: "SpaceShips".to_string(),
                symbol: "SPACE".to_string(),
                minter: CREATOR.to_string(),
                prompt: prompt.to_string(),
            },
            true,
        )
        .unwrap();
    contract
}

fn request(description: &str) -> Option<Metadata> {
    Some(Metadata { description: Some(description.to_string()), ..Metadata::default() })
}

fn mint(contract: &mut Cw7007Contract, owner: &str, description: &str) -> Response {
    contract
        .execute(
            &info(owner),
            ExecuteMsg::Mint {
                token_id: "ignored".to_string(),
                owner: owner.to_string(),
                token_uri: None,
                extension: request(description),
            },
            true,
        )
        .unwrap()
}

fn attr(resp: &Response, key: &str) -> String {
    resp.attributes.iter().find(|a| a.key == key).unwrap().value.clone()
}

fn queue(contract: &Cw7007Contract) -> Vec<String> {
    contract.request_ids().unwrap().ids
}

fn image(contract: &Cw7007Contract, id: &str) -> Option<String> {
    contract.nft_info(&id.to_string()).unwrap().extension.as_ref().unwrap().image.clone()
}

#[test]
fn use_metadata_extension() {
    let mut contract = Cw7007Contract::default();
    let init_msg = InstantiateMsg {
        name: "SpaceShips".to_string(),
        symbol: "SPACE".to_string(),
        minter: CREATOR.to_string(),
        prompt: "You are a cat. Just answer with 'MEOW'.".into(),
    };
    contract.instantiate(init_msg, true).unwrap();

    let token_uri = Some("https://starships.example.com/Starship/Enterprise.json".to_string());
    let extension = Some(Metadata {
        description: Some("Spaceship with Warp Drive".into()),
        name: Some("Starship USS Enterprise".to_string()),
        ..Metadata::default()
    });
    let exec_msg = ExecuteMsg::Mint {
        token_id: "Not used".to_string(),
        owner: "john".to_string(),
        token_uri: token_uri.clone(),
        extension: extension.clone(),
    };
    contract.execute(&info(CREATOR), exec_msg, true).unwrap();

    let query_msg = QueryMsg::NftInfo { token_id: "0".to_string() };
    match contract.query(query_msg) {
        Ok(QueryAnswer::NftInfo(res)) => {
            assert_eq!(res.token_uri, token_uri, "Token URI does not match");
            assert_eq!(
                res.extension.clone().expect("Extension is None"),
                extension.expect("Extension is None"),
                "Extension does not match"
            );
        }
        Err(err) => panic!("Query failed: {:?}", err),
        Ok(other) => panic!("Query failed: {:?}", other),
    };
}

#[test]
fn sunset_scenario() {
    let mut contract = init("Describe a sunset");
    assert_eq!(contract.prompt_info().unwrap().prompt, "Describe a sunset");

    let r = mint(&mut contract, "alice", "req1");
    assert_eq!(attr(&r, "token_id"), "0");
    assert_eq!(queue(&contract), vec!["0".to_string()]);

    let r = mint(&mut contract, "bob", "req2");
    assert_eq!(attr(&r, "token_id"), "1");
    assert_eq!(queue(&contract), vec!["0".to_string(), "1".to_string()]);

    contract.response(&info(CREATOR), "0".to_string(), "sunset.png".to_string()).unwrap();
    assert_eq!(queue(&contract), vec!["1".to_string()]);
    assert_eq!(image(&contract, "0"), Some("sunset.png".to_string()));

    let err = contract
        .response(&info(CREATOR), "0".to_string(), "again.png".to_string())
        .unwrap_err();
    assert_eq!(err, ContractError::PreconditionFailed(Precondition::OutputAlreadySet));
    assert_eq!(queue(&contract), vec!["1".to_string()]);
    assert_eq!(image(&contract, "0"), Some("sunset.png".to_string()));
}

#[test]
fn ids_follow_mint_order() {
    let mut contract = init("p");
    for k in 0..12u64 {
        let r = mint(&mut contract, "alice", "req");
        assert_eq!(attr(&r, "token_id"), k.to_string());
    }
    assert_eq!(contract.num_tokens(), 12);
    assert_eq!(queue(&contract).last().unwrap(), "11");
    assert!(contract.nft_info(&"10".to_string()).is_ok());
}

#[test]
fn client_token_id_is_ignored() {
    let mut contract = init("p");
    let msg = ExecuteMsg::Mint {
        token_id: "42".to_string(),
        owner: "john".to_string(),
        token_uri: None,
        extension: request("d"),
    };
    let r = contract.execute(&info("john"), msg, true).unwrap();
    assert_eq!(attr(&r, "token_id"), "0");
    assert_eq!(contract.nft_info(&"42".to_string()).unwrap_err(), ContractError::NotFound);
}

#[test]
fn mint_event_attributes() {
    let mut contract = init("p");
    let r = contract
        .mint_anyone(&info("minter1"), "alice".to_string(), true, None, request("d"))
        .unwrap();
    let pairs: Vec<(String, String)> =
        r.attributes.iter().map(|a| (a.key.clone(), a.value.clone())).collect();
    assert_eq!(
        pairs,
        vec![
            ("action".to_string(), "mint".to_string()),
            ("minter".to_string(), "minter1".to_string()),
            ("owner".to_string(), "alice".to_string()),
            ("token_id".to_string(), "0".to_string()),
        ]
    );
}

#[test]
fn response_event_attributes() {
    let mut contract = init("p");
    mint(&mut contract, "alice", "d");
    let r = contract.response(&info(CREATOR), "0".to_string(), "out".to_string()).unwrap();
    let pairs: Vec<(String, String)> =
        r.attributes.iter().map(|a| (a.key.clone(), a.value.clone())).collect();
    assert_eq!(
        pairs,
        vec![
            ("action".to_string(), "response".to_string()),
            ("sender".to_string(), CREATOR.to_string()),
            ("token_id".to_string(), "0".to_string()),
            ("output".to_string(), "out".to_string()),
        ]
    );
}

#[test]
fn second_fulfil_fails_and_keeps_output() {
    let mut contract = init("p");
    mint(&mut contract, "alice", "d");
    contract.response(&info(CREATOR), "0".to_string(), "first".to_string()).unwrap();
    let err = contract.response(&info(CREATOR), "0".to_string(), "second".to_string());
    assert_eq!(err, Err(ContractError::PreconditionFailed(Precondition::OutputAlreadySet)));
    assert_eq!(image(&contract, "0"), Some("first".to_string()));
}

#[test]
fn fulfil_removes_from_queue_and_sets_output() {
    let mut contract = init("p");
    mint(&mut contract, "a", "d0");
    mint(&mut contract, "b", "d1");
    mint(&mut contract, "c", "d2");
    contract.response(&info(CREATOR), "1".to_string(), "v".to_string()).unwrap();
    assert_eq!(queue(&contract), vec!["0".to_string(), "2".to_string()]);
    assert_eq!(image(&contract, "1"), Some("v".to_string()));
    assert_eq!(image(&contract, "0"), None);
}

#[test]
fn mint_queues_id_once() {
    let mut contract = init("p");
    mint(&mut contract, "a", "d0");
    let r = mint(&mut contract, "b", "d1");
    let id = attr(&r, "token_id");
    assert_eq!(queue(&contract).iter().filter(|x| **x == id).count(), 1);
}

#[test]
fn fulfil_by_stranger_is_unauthorized() {
    let mut contract = init("p");
    mint(&mut contract, "alice", "d");
    let err = contract.response(&info("alice"), "0".to_string(), "x".to_string());
    assert_eq!(err, Err(ContractError::Unauthorized));
    assert_eq!(queue(&contract), vec!["0".to_string()]);
    assert_eq!(image(&contract, "0"), None);
}

#[test]
fn fulfil_before_instantiate_is_unauthorized() {
    let mut contract = Cw7007Contract::new();
    let err = contract.response(&info(CREATOR), "0".to_string(), "x".to_string());
    assert_eq!(err, Err(ContractError::Unauthorized));
}

#[test]
fn fulfil_unknown_token_not_found() {
    let mut contract = init("p");
    let err = contract.response(&info(CREATOR), "7".to_string(), "x".to_string());
    assert_eq!(err, Err(ContractError::NotFound));
}

#[test]
fn fulfil_without_metadata_fails() {
    let mut contract = init("p");
    contract.mint_anyone(&info("a"), "a".to_string(), true, None, None).unwrap();
    let err = contract.response(&info(CREATOR), "0".to_string(), "x".to_string());
    assert_eq!(err, Err(ContractError::PreconditionFailed(Precondition::MissingMetadata)));
    assert_eq!(queue(&contract), vec!["0".to_string()]);
}

#[test]
fn mint_with_invalid_owner_fails() {
    let mut contract = init("p");
    let err = contract.mint_anyone(&info("a"), "BAD".to_string(), false, None, request("d"));
    assert_eq!(err, Err(ContractError::InvalidAddress));
    assert_eq!(contract.num_tokens(), 0);
    assert!(queue(&contract).is_empty());
}

#[test]
fn mint_before_instantiate_not_found() {
    let mut contract = Cw7007Contract::new();
    let err = contract.mint_anyone(&info("a"), "a".to_string(), true, None, request("d"));
    assert_eq!(err, Err(ContractError::NotFound));
    assert_eq!(contract.num_tokens(), 0);
}

#[test]
fn instantiate_with_invalid_minter_fails() {
    let mut contract = Cw7007Contract::new();
    let msg = InstantiateMsg {
        name: "n".to_string(),
        symbol: "s".to_string(),
        minter: "".to_string(),
        prompt: "p".to_string(),
    };
    assert_eq!(contract.instantiate(msg, false), Err(ContractError::InvalidAddress));
    assert_eq!(contract.prompt_info(), Err(ContractError::NotFound));
}

#[test]
fn verify_is_not_supported() {
    let mut contract = init("p");
    mint(&mut contract, "alice", "d");
    let msg = ExecuteMsg::Verify { token_id: "0".to_string(), proof: "zk".to_string() };
    assert_eq!(contract.execute(&info(CREATOR), msg, true), Err(ContractError::NotSupported));
    assert_eq!(
        Cw7007Execute::verify(&mut contract, &info(CREATOR), "0".to_string(), "zk".to_string()),
        Err(ContractError::NotSupported)
    );
    assert_eq!(queue(&contract), vec!["0".to_string()]);
}

#[test]
fn queries_before_instantiate_not_found() {
    let contract = Cw7007Contract::new();
    assert_eq!(contract.prompt_info(), Err(ContractError::NotFound));
    assert_eq!(contract.request_ids(), Err(ContractError::NotFound));
    assert_eq!(contract.query(QueryMsg::ContractInfo), Err(ContractError::NotFound));
    assert_eq!(contract.query(QueryMsg::NumTokens), Ok(QueryAnswer::NumTokens(0)));
    assert_eq!(contract.minter(), None);
}

#[test]
fn queries_after_instantiate() {
    let mut contract = init("Describe a sunset");
    mint(&mut contract, "alice", "d");
    match contract.query(QueryMsg::Prompt) {
        Ok(QueryAnswer::Prompt(p)) => assert_eq!(p.prompt, "Describe a sunset"),
        other => panic!("unexpected {:?}", other),
    }
    match contract.query(QueryMsg::RequestIds) {
        Ok(QueryAnswer::RequestIds(r)) => assert_eq!(r.ids, vec!["0".to_string()]),
        other => panic!("unexpected {:?}", other),
    }
    match contract.query(QueryMsg::ContractInfo) {
        Ok(QueryAnswer::ContractInfo(i)) => {
            assert_eq!(i.name, "SpaceShips");
            assert_eq!(i.symbol, "SPACE");
        }
        other => panic!("unexpected {:?}", other),
    }
    assert_eq!(contract.query(QueryMsg::NumTokens), Ok(QueryAnswer::NumTokens(1)));
    assert_eq!(contract.minter(), Some(CREATOR.to_string()));
    assert_eq!(Cw7007Query::request_ids(&contract).unwrap().ids, vec!["0".to_string()]);
}

#[test]
fn error_messages() {
    assert_eq!(
        ContractError::PreconditionFailed(Precondition::OutputAlreadySet).message(),
        "output already set"
    );
    assert_eq!(
        ContractError::PreconditionFailed(Precondition::MissingMetadata).message(),
        "missing metadata"
    );
    assert_eq!(ContractError::NotSupported.message(), "not yet supported");
}

#[test]
fn parts_round_trip() {
    let mut contract = init("Describe a sunset");
    mint(&mut contract, "alice", "req1");
    mint(&mut contract, "bob", "req2");
    contract.response(&info(CREATOR), "0".to_string(), "sunset.png".to_string()).unwrap();
    let parts = contract.into_parts();
    assert_eq!(parts.token_count, 2);
    assert_eq!(parts.tokens.len(), 2);
    let mut back = Cw7007Contract::from_parts(parts).unwrap();
    assert_eq!(queue(&back), vec!["1".to_string()]);
    assert_eq!(image(&back, "0"), Some("sunset.png".to_string()));
    let r = mint(&mut back, "carol", "req3");
    assert_eq!(attr(&r, "token_id"), "2");
}

fn token(owner: &str) -> cw7007::TokenInfo {
    cw7007::TokenInfo { owner: owner.to_string(), token_uri: None, extension: request("d") }
}

fn parts_with(tokens: Vec<(String, cw7007::TokenInfo)>, ids: Vec<&str>) -> cw7007::ContractParts {
    cw7007::ContractParts {
        owner: Some(CREATOR.to_string()),
        contract_info: None,
        prompt_info: None,
        request_ids: Some(cw7007::RequestIdsResponse {
            ids: ids.into_iter().map(|s| s.to_string()).collect(),
        }),
        tokens,
        token_count: 2,
    }
}

#[test]
fn parts_with_duplicate_ids_refused() {
    let parts = parts_with(vec![("0".to_string(), token("a")), ("0".to_string(), token("b"))], vec![]);
    assert!(Cw7007Contract::from_parts(parts).is_none());
}

#[test]
fn parts_with_unknown_queued_id_refused() {
    let parts = parts_with(vec![("0".to_string(), token("a"))], vec!["5"]);
    assert!(Cw7007Contract::from_parts(parts).is_none());
}

#[test]
fn parts_with_id_queued_twice_refused() {
    let parts = parts_with(
        vec![("0".to_string(), token("a")), ("1".to_string(), token("b"))],
        vec!["1", "0", "1"],
    );
    assert!(Cw7007Contract::from_parts(parts).is_none());
}

#[test]
fn consistent_parts_accepted() {
    let parts = parts_with(
        vec![("1".to_string(), token("b")), ("0".to_string(), token("a"))],
        vec!["0", "1"],
    );
    let contract = Cw7007Contract::from_parts(parts).unwrap();
    assert_eq!(contract.nft_info(&"1".to_string()).unwrap().owner, "b");
    assert_eq!(queue(&contract), vec!["0".to_string(), "1".to_string()]);
}

#[test]
fn description_required_on_mint_metadata() {
    assert!(Metadata::lacks_description(&Some(Metadata::default())));
    assert!(!Metadata::lacks_description(&request("d")));
    assert!(!Metadata::lacks_description(&None));
}

#[test]
fn second_instantiate_refused() {
    let mut contract = init("first prompt");
    mint(&mut contract, "alice", "d");
    let msg = InstantiateMsg {
        name: "n".to_string(),
        symbol: "s".to_string(),
        minter: "mallory".to_string(),
        prompt: "second prompt".to_string(),
    };
    assert_eq!(contract.instantiate(msg, true), Err(ContractError::AlreadyInstantiated));
    assert_eq!(contract.prompt_info().unwrap().prompt, "first prompt");
    assert_eq!(contract.minter(), Some(CREATOR.to_string()));
    assert_eq!(queue(&contract), vec!["0".to_string()]);
}

#[test]
fn query_nft_info_and_minter() {
    let mut contract = init("p");
    mint(&mut contract, "alice", "req1");
    match contract.query(QueryMsg::NftInfo { token_id: "0".to_string() }) {
        Ok(QueryAnswer::NftInfo(t)) => {
            assert_eq!(t.owner, "alice");
            assert_eq!(t.extension, request("req1"));
        }
        other => panic!("unexpected {:?}", other),
    }
    assert_eq!(
        contract.query(QueryMsg::NftInfo { token_id: "1".to_string() }),
        Err(ContractError::NotFound)
    );
    assert_eq!(
        contract.query(QueryMsg::Minter),
        Ok(QueryAnswer::Minter(Some(CREATOR.to_string())))
    );
    assert_eq!(Cw7007Contract::new().query(QueryMsg::Minter), Ok(QueryAnswer::Minter(None)));
}

#[test]
fn mint_at_largest_count_overflows() {
    let mut parts = parts_with(vec![], vec![]);
    parts.token_count = u64::MAX;
    let mut contract = Cw7007Contract::from_parts(parts).unwrap();
    let err = contract.mint_anyone(&info("a"), "a".to_string(), true, None, request("d"));
    assert_eq!(err, Err(ContractError::TokenCountOverflow));
    assert_eq!(contract.num_tokens(), u64::MAX);
    assert!(queue(&contract).is_empty());
}

#[test]
fn mint_onto_taken_id_is_claimed() {
    let parts = parts_with(vec![("2".to_string(), token("a"))], vec![]);
    let mut contract = Cw7007Contract::from_parts(parts).unwrap();
    let err = contract.mint_anyone(&info("b"), "b".to_string(), true, None, request("d"));
    assert_eq!(err, Err(ContractError::Claimed));
    assert_eq!(contract.num_tokens(), 2);
    assert_eq!(contract.nft_info(&"2".to_string()).unwrap().owner, "a");
}

#[test]
fn trait_methods_follow_inherent_ones() {
    let mut contract = init("p");
    mint(&mut contract, "alice", "d");
    assert_eq!(
        Cw7007Execute::response(&mut contract, &info("alice"), "0".to_string(), "x".to_string()),
        Err(ContractError::Unauthorized)
    );
    Cw7007Execute::response(&mut contract, &info(CREATOR), "0".to_string(), "x".to_string())
        .unwrap();
    assert_eq!(image(&contract, "0"), Some("x".to_string()));
    assert_eq!(Cw7007Query::prompt_info(&contract).unwrap().prompt, "p");
    assert!(Cw7007Query::request_ids(&contract).unwrap().ids.is_empty());
}

#[test]
fn decimal_rendering() {
    assert_eq!(decimal_string(0), "0");
    assert_eq!(decimal_string(7), "7");
    assert_eq!(decimal_string(10), "10");
    assert_eq!(decimal_string(1234567890), "1234567890");
    assert_eq!(decimal_string(u64::MAX), u64::MAX.to_string());
}
